//! What holds of the grammar for every statement: a selection that is printed
//! reads back as itself.

use crate::parser::ast::any_statement;
use crate::parser::ast::query;
use crate::parser::ast::terminated_statement;
use crate::parser::ast::SqlQueryView;
use crate::parser::commands::select::joined;
use crate::parser::commands::select::select_text;
use crate::parser::commands::select::selection;
use crate::parser::commands::select::SelectStatementView;
use crate::parser::error::Diagnostic;
use crate::parser::parse::character;
use crate::parser::parse::comma_sep;
use crate::parser::parse::comma_sep_rest;
use crate::parser::parse::identifier;
use crate::parser::parse::multispace1;
use crate::parser::parse::reading;
use crate::parser::source::lemma_run;
use crate::parser::parse::separator;
use crate::parser::source::stands_at;
use crate::parser::parse::tag_no_case;
use crate::parser::source::CharClass;
use crate::parser::parse::Outcome;
use crate::parser::parse::Parse;
use vstd::prelude::*;

verus! {

/// Whether `name` can stand as an identifier: one or more ASCII letters or
/// digits.
pub open spec fn is_identifier(name: Seq<char>) -> bool {
    &&& name.len() > 0
    &&& forall|i: int| 0 <= i < name.len() ==> CharClass::Alphanumeric.has(#[trigger] name[i])
}

/// Whether the statement can be written down: it names a table and at least
/// one column, each by an identifier.
pub open spec fn printable(statement: SelectStatementView) -> bool {
    &&& statement.fields.len() > 0
    &&& is_identifier(statement.table)
    &&& forall|i: int|
        0 <= i < statement.fields.len() ==> is_identifier(#[trigger] statement.fields[i])
}

/// Where the first `count` names end in the joined text, for `count` from 1
/// up.
pub open spec fn joined_len(names: Seq<Seq<char>>, count: int) -> int {
    joined(names, count).len() as int
}

/// The joined text of more names begins with the joined text of fewer; behind
/// it stand a comma, a space and the next name.
pub proof fn lemma_joined(names: Seq<Seq<char>>, count: int, total: int)
    requires
        1 <= count <= total <= names.len(),
    ensures
        joined_len(names, count) <= joined_len(names, total),
        joined(names, total).subrange(0, joined_len(names, count)) == joined(names, count),
        count < total ==> {
            &&& joined_len(names, count + 1) == joined_len(names, count) + 2 + names[count].len()
            &&& joined_len(names, count + 1) <= joined_len(names, total)
            &&& joined(names, total)[joined_len(names, count)] == ','
            &&& joined(names, total)[joined_len(names, count) + 1] == ' '
            &&& joined(names, total).subrange(
                joined_len(names, count) + 2,
                joined_len(names, count + 1),
            ) == names[count]
        },
    decreases total - count,
{
    reveal_strlit(", ");
    let whole = joined(names, total);
    if count == total {
        assert(whole.subrange(0, whole.len() as int) =~= whole);
    } else {
        let front = joined(names, total - 1);
        assert(whole =~= front + ", "@ + names[total - 1]);
        lemma_joined(names, count, total - 1);
        assert(whole.subrange(0, joined_len(names, count)) =~= front.subrange(
            0,
            joined_len(names, count),
        ));
        if count < total - 1 {
            assert(whole.subrange(joined_len(names, count) + 2, joined_len(names, count + 1))
                =~= front.subrange(joined_len(names, count) + 2, joined_len(names, count + 1)));
        } else {
            assert(joined(names, count + 1) =~= joined(names, count) + ", "@ + names[count]);
            assert(whole.subrange(joined_len(names, count) + 2, joined_len(names, count + 1))
                =~= names[count]);
        }
    }
}

/// The printed statement, with its closing semicolon.
pub open spec fn printed(statement: SelectStatementView) -> Seq<char> {
    select_text(statement).push(';')
}

/// Where the list of columns ends in the printed statement.
pub open spec fn list_end(statement: SelectStatementView) -> int {
    7 + joined_len(statement.fields, statement.fields.len() as int)
}

/// The layout of the printed statement, character by character.
pub proof fn lemma_layout(statement: SelectStatementView)
    ensures
        ({
            let text = printed(statement);
            let list = joined(statement.fields, statement.fields.len() as int);
            let end = list_end(statement);
            &&& text.len() == end + 6 + statement.table.len() + 1
            &&& text[0] == 'S' && text[1] == 'E' && text[2] == 'L' && text[3] == 'E' && text[4]
                == 'C' && text[5] == 'T' && text[6] == ' '
            &&& forall|i: int| 7 <= i < end ==> #[trigger] text[i] == list[i - 7]
            &&& text[end] == ' ' && text[end + 1] == 'F' && text[end + 2] == 'R' && text[end + 3]
                == 'O' && text[end + 4] == 'M' && text[end + 5] == ' '
            &&& forall|i: int|
                end + 6 <= i < end + 6 + statement.table.len() ==> #[trigger] text[i]
                    == statement.table[i - end - 6]
            &&& text[end + 6 + statement.table.len()] == ';'
        }),
{
    reveal_strlit("SELECT ");
    reveal_strlit(" FROM ");
}

/// Where the column at position `at` begins in the printed statement.
pub open spec fn field_start(statement: SelectStatementView, at: int) -> int {
    if at == 0 {
        7
    } else {
        7 + joined_len(statement.fields, at) + 2
    }
}

/// Where the column at position `at` ends in the printed statement.
pub open spec fn field_end(statement: SelectStatementView, at: int) -> int {
    7 + joined_len(statement.fields, at + 1)
}

/// In the printed statement, each column stands where the layout says, and
/// reads as an identifier there.
proof fn lemma_field(statement: SelectStatementView, at: int)
    requires
        printable(statement),
        0 <= at < statement.fields.len(),
    ensures
        7 <= field_start(statement, at) < field_end(statement, at) <= list_end(statement),
        identifier(printed(statement), field_start(statement, at)) == (Outcome::Done {
            next: field_end(statement, at),
            value: statement.fields[at],
        }),
        !CharClass::Whitespace.has(printed(statement)[field_start(statement, at)]),
        at + 1 < statement.fields.len() ==> printed(statement)[field_end(statement, at)] == ','
            && printed(statement)[field_end(statement, at) + 1] == ' ',
{
    let text = printed(statement);
    let names = statement.fields;
    let total = names.len() as int;
    let list = joined(names, total);
    let name = names[at];
    let start = field_start(statement, at);
    let end = field_end(statement, at);
    lemma_layout(statement);
    lemma_joined(names, at + 1, total);
    assert(is_identifier(name));
    if at == 0 {
        assert(joined(names, 1) == name);
        assert(list.subrange(0, joined_len(names, 1)) == name);
        assert forall|i: int| 0 <= i < name.len() implies text[start + i] == name[i] by {
            assert(list.subrange(0, joined_len(names, 1))[i] == list[i]);
        }
    } else {
        lemma_joined(names, at, total);
        assert forall|i: int| 0 <= i < name.len() implies text[start + i] == name[i] by {
            assert(list.subrange(joined_len(names, at) + 2, joined_len(names, at + 1))[i]
                == list[start + i - 7]);
        }
    }
    assert(end == start + name.len());
    assert forall|i: int| start <= i < end implies CharClass::Alphanumeric.has(
        #[trigger] text[i],
    ) by {
        assert(text[start + (i - start)] == name[i - start]);
    }
    assert(text.subrange(start, end) =~= name) by {
        assert forall|i: int| 0 <= i < name.len() implies text.subrange(start, end)[i]
            == name[i] by {
            assert(text[start + i] == name[i]);
        }
    }
    if at + 1 < total {
        assert(text[end] == list[end - 7]);
        assert(text[end + 1] == list[end + 1 - 7]);
    }
    lemma_run(text, start, end, CharClass::Alphanumeric);
}

/// In the printed statement, a comma and a space stand between one column
/// and the next.
proof fn lemma_separator(statement: SelectStatementView, count: int)
    requires
        printable(statement),
        1 <= count < statement.fields.len(),
    ensures
        separator(printed(statement), field_end(statement, count - 1)) == (Outcome::Done {
            next: field_start(statement, count),
            value: (),
        }),
{
    let text = printed(statement);
    let pos = field_end(statement, count - 1);
    lemma_field(statement, count - 1);
    lemma_field(statement, count);
    lemma_layout(statement);
    lemma_run(text, pos, pos, CharClass::Whitespace);
    lemma_run(text, pos + 1, pos + 2, CharClass::Whitespace);
    assert(character(text, pos, ',') == (Outcome::Done { next: pos + 1, value: () }));
}

/// In the printed statement, no separator stands behind the last column.
proof fn lemma_no_separator(statement: SelectStatementView)
    requires
        printable(statement),
    ensures
        !(separator(printed(statement), list_end(statement)) is Done),
{
    let text = printed(statement);
    let pos = list_end(statement);
    lemma_layout(statement);
    lemma_run(text, pos, pos + 1, CharClass::Whitespace);
}

/// In the printed statement, the rest of the list behind its first `count`
/// columns reads as the columns that are left.
proof fn lemma_rest_of_list(statement: SelectStatementView, count: int)
    requires
        printable(statement),
        1 <= count <= statement.fields.len(),
    ensures
        comma_sep_rest::<String>(
            printed(statement),
            field_end(statement, count - 1),
            statement.fields.take(count),
        ) == (Outcome::Done { next: list_end(statement), value: statement.fields }),
    decreases statement.fields.len() - count,
{
    let text = printed(statement);
    let names = statement.fields;
    let pos = field_end(statement, count - 1);
    let found = names.take(count);
    if count == names.len() {
        assert(found =~= names);
        lemma_no_separator(statement);
    } else {
        let start = field_start(statement, count);
        let end = field_end(statement, count);
        lemma_separator(statement, count);
        lemma_field(statement, count - 1);
        lemma_field(statement, count);
        assert(text.len() >= list_end(statement)) by {
            lemma_layout(statement);
        }
        assert(String::grammar(text, start) == (Outcome::Done { next: end, value: names[count] }));
        assert(pos < end <= text.len());
        assert(found.push(names[count]) =~= names.take(count + 1));
        lemma_rest_of_list(statement, count + 1);
    }
}

/// In the printed statement, the list of columns reads as the columns.
proof fn lemma_list(statement: SelectStatementView)
    requires
        printable(statement),
    ensures
        comma_sep::<String>(printed(statement), 7) == (Outcome::Done {
            next: list_end(statement),
            value: statement.fields,
        }),
{
    lemma_field(statement, 0);
    assert(statement.fields.take(1) =~= seq![statement.fields[0]]);
    lemma_rest_of_list(statement, 1);
}

/// The printed statement reads as the selection, up to its semicolon.
proof fn lemma_selection(statement: SelectStatementView)
    requires
        printable(statement),
    ensures
        printed(statement).len() == list_end(statement) + 6 + statement.table.len() + 1,
        printed(statement)[printed(statement).len() - 1] == ';',
        selection(printed(statement), 0) == (Outcome::Done {
            next: printed(statement).len() - 1,
            value: statement,
        }),
{
    reveal_strlit("select");
    reveal_strlit("from");
    let text = printed(statement);
    let table = statement.table;
    let end = list_end(statement);
    let last = end + 6 + table.len();
    lemma_layout(statement);
    lemma_field(statement, 0);
    lemma_list(statement);
    assert(is_identifier(table));
    assert(tag_no_case(text, 0, "select") == (Outcome::Done { next: 6, value: () })) by {
        assert(stands_at(text, 0, "select"@, true));
    }
    assert(multispace1(text, 6) == (Outcome::Done { next: 7, value: () })) by {
        lemma_run(text, 6, 7, CharClass::Whitespace);
    }
    assert(multispace1(text, end) == (Outcome::Done { next: end + 1, value: () })) by {
        lemma_run(text, end, end + 1, CharClass::Whitespace);
    }
    assert(tag_no_case(text, end + 1, "from") == (Outcome::Done { next: end + 5, value: () })) by {
        assert(stands_at(text, end + 1, "from"@, true));
    }
    assert(multispace1(text, end + 5) == (Outcome::Done { next: end + 6, value: () })) by {
        assert(CharClass::Alphanumeric.has(table[0]));
        assert(text[end + 6] == table[0]);
        lemma_run(text, end + 5, end + 6, CharClass::Whitespace);
    }
    assert(identifier(text, end + 6) == (Outcome::Done { next: last, value: table })) by {
        assert forall|i: int| end + 6 <= i < last implies CharClass::Alphanumeric.has(
            #[trigger] text[i],
        ) by {
            assert(CharClass::Alphanumeric.has(table[i - end - 6]));
        }
        lemma_run(text, end + 6, last, CharClass::Alphanumeric);
        assert(text.subrange(end + 6, last) =~= table);
    }
}

/// Round trip. A selection of at least one column, with identifiers for its
/// columns and its table, reads back from its printed form as itself.
pub proof fn printed_selection_reads_back(statement: SelectStatementView)
    requires
        printable(statement),
    ensures
        reading(printed(statement), query(printed(statement), 0)) == Ok::<
            SqlQueryView,
            Diagnostic,
        >(SqlQueryView::Select(statement)),
{
    let text = printed(statement);
    let last = text.len() - 1;
    lemma_selection(statement);
    lemma_layout(statement);
    lemma_run(text, 0, 0, CharClass::Whitespace);
    lemma_run(text, last, last, CharClass::Whitespace);
    lemma_run(text, last + 1, last + 1, CharClass::Whitespace);
    assert(any_statement(text, 0) == (Outcome::Done {
        next: last,
        value: SqlQueryView::Select(statement),
    }));
    assert(terminated_statement(text, 0) == (Outcome::Done {
        next: last + 1,
        value: SqlQueryView::Select(statement),
    }));
}

} // verus!
