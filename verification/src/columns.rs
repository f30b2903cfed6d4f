use vstd::prelude::*;

verus! {

/// A column that a parser reads is not in the result set: the query and the
/// parser do not fit together.
#[derive(Debug, PartialEq, Eq, Clone, Copy)]
pub struct ColumnNotFound(pub &'static str);

/// The names of the columns of a result set.
pub open spec fn names_view(columns: Seq<String>) -> Seq<Seq<char>> {
    columns.map_values(|column: String| column@)
}

/// No column of the result set is called `name`.
pub open spec fn is_missing(columns: Seq<Seq<char>>, name: Seq<char>) -> bool {
    forall|i: int| 0 <= i < columns.len() ==> columns[i] != name
}

/// `at` is the place of the first column called `name`.
pub open spec fn is_first_position(columns: Seq<Seq<char>>, name: Seq<char>, at: int) -> bool {
    &&& 0 <= at < columns.len()
    &&& columns[at] == name
    &&& forall|i: int| 0 <= i < at ==> columns[i] != name
}

/// The place of the first column called `name`, or `None` where there is no
/// such column.
pub fn position(columns: &Vec<String>, name: &str) -> (found: Option<usize>)
    ensures
        match found {
            Some(at) => is_first_position(names_view(columns@), name@, at as int),
            None => is_missing(names_view(columns@), name@),
        },
{
    let wanted = name.to_owned();
    let mut i: usize = 0;
    while i < columns.len()
        invariant
            i <= columns.len(),
            wanted@ == name@,
            forall|j: int| 0 <= j < i ==> names_view(columns@)[j] != name@,
        decreases columns.len() - i,
    {
        if columns[i] == wanted {
            return Some(i);
        }
        i = i + 1;
    }
    None
}

/// `map` is what looking up `reference_columns` among `input_columns`
/// gives: for each of `reference_columns` the place of the first column of
/// that name, or, where one is lacking, the first of `reference_columns`
/// that the result set lacks.
pub open spec fn is_column_map(
    reference_columns: Seq<&'static str>,
    input_columns: Seq<Seq<char>>,
    map: Result<Vec<usize>, ColumnNotFound>,
) -> bool {
    match map {
        Ok(places) => {
            &&& places@.len() == reference_columns.len()
            &&& forall|k: int|
                0 <= k < reference_columns.len() ==> is_first_position(
                    input_columns,
                    reference_columns[k]@,
                    #[trigger] places@[k] as int,
                )
        },
        Err(ColumnNotFound(name)) => exists|k: int|
            {
                &&& 0 <= k < reference_columns.len()
                &&& name == #[trigger] reference_columns[k]
                &&& is_missing(input_columns, name@)
                &&& forall|j: int|
                    0 <= j < k ==> !is_missing(input_columns, (#[trigger] reference_columns[j])@)
            },
    }
}

/// For each column that a parser reads, its place in a result set with the
/// columns `input_columns`: `map[k]` is the place of the first column called
/// `reference_columns[k]`. Fails with the first of `reference_columns` that
/// the result set lacks.
pub fn build_column_map(reference_columns: &Vec<&'static str>, input_columns: &Vec<String>) -> (map:
    Result<Vec<usize>, ColumnNotFound>)
    ensures
        is_column_map(reference_columns@, names_view(input_columns@), map),
{
    let mut places: Vec<usize> = Vec::new();
    let mut k: usize = 0;
    while k < reference_columns.len()
        invariant
            k <= reference_columns.len(),
            places@.len() == k,
            forall|j: int|
                0 <= j < k ==> is_first_position(
                    names_view(input_columns@),
                    reference_columns@[j]@,
                    #[trigger] places@[j] as int,
                ),
        decreases reference_columns.len() - k,
    {
        let name: &'static str = reference_columns[k];
        match position(input_columns, name) {
            Some(at) => {
                places.push(at);
            },
            None => {
                proof {
                    assert forall|j: int| 0 <= j < k implies !is_missing(
                        names_view(input_columns@),
                        (#[trigger] reference_columns@[j])@,
                    ) by {
                        let at = places@[j] as int;
                        assert(names_view(input_columns@)[at] == reference_columns@[j]@);
                    }
                }
                return Err(ColumnNotFound(name));
            },
        }
        k = k + 1;
    }
    Ok(places)
}

/// The column map for a whole result set, made once, from its first row,
/// and then used for every row. `first_row_columns` holds the columns of
/// the first row, or nothing where the result set is empty: then no column
/// is looked up and there is no map, whatever the parser reads.
pub fn column_map_for(
    reference_columns: &Vec<&'static str>,
    first_row_columns: Option<&Vec<String>>,
) -> (map: Result<Option<Vec<usize>>, ColumnNotFound>)
    ensures
        match first_row_columns {
            None => map == Ok::<Option<Vec<usize>>, ColumnNotFound>(None),
            Some(columns) => match map {
                Ok(Some(places)) => is_column_map(
                    reference_columns@,
                    names_view(columns@),
                    Ok(places),
                ),
                Ok(None) => false,
                Err(missing) => is_column_map(
                    reference_columns@,
                    names_view(columns@),
                    Err(missing),
                ),
            },
        },
{
    match first_row_columns {
        None => Ok(None),
        Some(columns) => match build_column_map(reference_columns, columns) {
            Ok(places) => Ok(Some(places)),
            Err(missing) => Err(missing),
        },
    }
}

/// The columns that a listing entry is read from: the table, the item and
/// its name.
pub fn item_info_short_columns() -> (columns: Vec<&'static str>)
    ensures
        columns@.len() == 3,
        columns@[0]@ == "table_id"@,
        columns@[1]@ == "item_id"@,
        columns@[2]@ == "name"@,
{
    vec!["table_id", "item_id", "name"]
}

/// The columns that a full item is read from.
pub fn item_info_columns() -> (columns: Vec<&'static str>)
    ensures
        columns@.len() == 6,
        columns@[0]@ == "table_id"@,
        columns@[1]@ == "item_id"@,
        columns@[2]@ == "name"@,
        columns@[3]@ == "comment"@,
        columns@[4]@ == "created_at"@,
        columns@[5]@ == "forecast_ready_at"@,
{
    vec!["table_id", "item_id", "name", "comment", "created_at", "forecast_ready_at"]
}

} // verus!
