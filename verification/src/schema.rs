//! The tables of the database: which columns an older table lacks.

use crate::text;
use crate::text::same_text;
use vstd::prelude::*;

verus! {

/// The statement that adds a column to a table.
pub open spec fn add_column(table: Seq<char>, column: Seq<char>, definition: Seq<char>) -> Seq<
    char,
> {
    "ALTER TABLE "@ + table + " ADD COLUMN "@ + column + " "@ + definition
}

/// The statement that is needed for a table with the given columns to have one
/// more, if it lacks it.
pub open spec fn needed_column(
    existing: Seq<Seq<char>>,
    table: Seq<char>,
    column: Seq<char>,
    definition: Seq<char>,
) -> Seq<Seq<char>> {
    if existing.contains(column) {
        Seq::empty()
    } else {
        seq![add_column(table, column, definition)]
    }
}

/// The statements that bring a clip table with the given columns up to date:
/// one for each column that was added over time and that it lacks.
pub open spec fn migration(existing: Seq<Seq<char>>) -> Seq<Seq<char>> {
    needed_column(existing, "clips"@, "image_bytes"@, "BLOB"@) + needed_column(
        existing,
        "clips"@,
        "image_encoding"@,
        "TEXT"@,
    ) + needed_column(existing, "clips"@, "image_width"@, "INTEGER"@) + needed_column(
        existing,
        "clips"@,
        "image_height"@,
        "INTEGER"@,
    ) + needed_column(existing, "clips"@, "thumbnail_bytes"@, "BLOB"@) + needed_column(
        existing,
        "clips"@,
        "thumbnail_width"@,
        "INTEGER"@,
    ) + needed_column(existing, "clips"@, "thumbnail_height"@, "INTEGER"@)
}

/// The statement that adds a column to a table, if the table lacks it.
pub fn ensure_column(
    existing: &Vec<String>,
    table: &str,
    column: &str,
    definition: &str,
) -> (r: Option<String>)
    ensures
        match r {
            Some(statement) => !text::views(existing@).contains(column@) && statement@
                == add_column(table@, column@, definition@),
            None => text::views(existing@).contains(column@),
        },
{
    let mut i: usize = 0;
    while i < existing.len()
        invariant
            i <= existing@.len(),
            forall|k: int| 0 <= k < i ==> (#[trigger] existing@[k])@ != column@,
        decreases existing@.len() - i,
    {
        if same_text(existing[i].as_str(), column) {
            assert(text::views(existing@)[i as int] == column@);
            return None;
        }
        i = i + 1;
    }
    proof {
        if text::views(existing@).contains(column@) {
            let k = choose|k: int|
                0 <= k < existing@.len() && text::views(existing@)[k] == column@;
            assert(existing@[k]@ == column@);
        }
    }
    let mut statement = "ALTER TABLE ".to_owned();
    statement.append(table);
    statement.append(" ADD COLUMN ");
    statement.append(column);
    statement.append(" ");
    statement.append(definition);
    Some(statement)
}

/// Appends the statement that adds a column to the clip table, if the table
/// lacks it.
fn push_needed(out: &mut Vec<String>, existing: &Vec<String>, column: &str, definition: &str)
    ensures
        text::views(final(out)@) == text::views(old(out)@) + needed_column(
            text::views(existing@),
            "clips"@,
            column@,
            definition@,
        ),
{
    match ensure_column(existing, "clips", column, definition) {
        Some(statement) => {
            out.push(statement);
            assert(text::views(out@) =~= text::views(old(out)@) + needed_column(
                text::views(existing@),
                "clips"@,
                column@,
                definition@,
            ));
        },
        None => {
            assert(text::views(out@) =~= text::views(old(out)@) + Seq::<Seq<char>>::empty());
        },
    }
}

/// The statements that bring a clip table with the given columns up to date.
pub fn initialize(existing: &Vec<String>) -> (r: Vec<String>)
    ensures
        text::views(r@) == migration(text::views(existing@)),
{
    let mut out: Vec<String> = Vec::new();
    assert(text::views(out@) =~= Seq::<Seq<char>>::empty());
    push_needed(&mut out, existing, "image_bytes", "BLOB");
    push_needed(&mut out, existing, "image_encoding", "TEXT");
    push_needed(&mut out, existing, "image_width", "INTEGER");
    push_needed(&mut out, existing, "image_height", "INTEGER");
    push_needed(&mut out, existing, "thumbnail_bytes", "BLOB");
    push_needed(&mut out, existing, "thumbnail_width", "INTEGER");
    push_needed(&mut out, existing, "thumbnail_height", "INTEGER");
    assert(text::views(out@) =~= migration(text::views(existing@)));
    out
}

/// The columns that were added to the clip table over time, each with what it
/// holds.
pub open spec fn added_columns() -> Seq<(Seq<char>, Seq<char>)> {
    seq![
        ("image_bytes"@, "BLOB"@),
        ("image_encoding"@, "TEXT"@),
        ("image_width"@, "INTEGER"@),
        ("image_height"@, "INTEGER"@),
        ("thumbnail_bytes"@, "BLOB"@),
        ("thumbnail_width"@, "INTEGER"@),
        ("thumbnail_height"@, "INTEGER"@),
    ]
}

/// The statement for a column of the clip table.
pub open spec fn statement_for(column: (Seq<char>, Seq<char>)) -> Seq<char> {
    "ALTER TABLE clips ADD COLUMN "@ + column.0 + " "@ + column.1
}

/// The clip table gets those of its columns that it lacks, each by one statement,
/// and nothing is done for a column that it has.
pub proof fn only_missing_columns_are_added(existing: Seq<Seq<char>>)
    ensures
        migration(existing) == added_columns().filter(
            |column: (Seq<char>, Seq<char>)| !existing.contains(column.0),
        ).map_values(|column: (Seq<char>, Seq<char>)| statement_for(column)),
{
    let all = added_columns();
    lemma_missing(existing, all.take(1));
    lemma_missing(existing, all.take(2));
    lemma_missing(existing, all.take(3));
    lemma_missing(existing, all.take(4));
    lemma_missing(existing, all.take(5));
    lemma_missing(existing, all.take(6));
    lemma_missing(existing, all);
    assert(all.take(1).drop_last() =~= Seq::empty());
    assert(all.take(2).drop_last() =~= all.take(1));
    assert(all.take(3).drop_last() =~= all.take(2));
    assert(all.take(4).drop_last() =~= all.take(3));
    assert(all.take(5).drop_last() =~= all.take(4));
    assert(all.take(6).drop_last() =~= all.take(5));
    assert(all.drop_last() =~= all.take(6));
    reveal(Seq::filter);
    assert(missing(existing, Seq::empty()) =~= Seq::<Seq<char>>::empty());
    assert(migration(existing) =~= missing(existing, all));
}

/// The statements for those of the columns that are missing.
spec fn missing(existing: Seq<Seq<char>>, columns: Seq<(Seq<char>, Seq<char>)>) -> Seq<Seq<char>> {
    columns.filter(
        |column: (Seq<char>, Seq<char>)| !existing.contains(column.0),
    ).map_values(|column: (Seq<char>, Seq<char>)| statement_for(column))
}

proof fn lemma_missing(existing: Seq<Seq<char>>, columns: Seq<(Seq<char>, Seq<char>)>)
    requires
        columns.len() > 0,
    ensures
        missing(existing, columns) == missing(existing, columns.drop_last()) + needed_column(
            existing,
            "clips"@,
            columns.last().0,
            columns.last().1,
        ),
{
    let last = columns.last();
    reveal(Seq::filter);
    reveal_strlit("ALTER TABLE ");
    reveal_strlit("clips");
    reveal_strlit(" ADD COLUMN ");
    reveal_strlit("ALTER TABLE clips ADD COLUMN ");
    assert("ALTER TABLE clips ADD COLUMN "@ =~= "ALTER TABLE "@ + "clips"@ + " ADD COLUMN "@);
    assert(missing(existing, columns) =~= missing(existing, columns.drop_last()) + needed_column(
        existing,
        "clips"@,
        last.0,
        last.1,
    ));
}

} // verus!
