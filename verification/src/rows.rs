//! The row mapper: turns the column layout and cells of a query result into
//! typed [`User`] values.
//!
//! The mapper succeeds exactly when the result has the columns
//! `(age int4, name text)` in that order and every cell is a non-null value
//! of the column's type.

use vstd::prelude::*;

verus! {

/// A single row of the `users` table: a signed 32-bit age and a name.
pub struct User {
    pub age: i32,
    pub name: Vec<char>,
}

/// Mathematical value of a [`User`].
pub ghost struct UserV {
    pub age: int,
    pub name: Seq<char>,
}

impl User {
    /// The mathematical value this row stands for.
    pub open spec fn view(&self) -> UserV {
        UserV { age: self.age as int, name: self.name@ }
    }
}

/// The database type of one result column, as far as the mapper cares.
pub enum ColTy {
    Int4,
    Text,
    Other,
}

/// Name and type of one result column.
pub struct ColDesc {
    pub name: Vec<char>,
    pub ty: ColTy,
}

/// One cell of a result row.
pub enum Cell {
    Null,
    IntCell(i32),
    TextCell(Vec<char>),
    OtherCell,
}

/// Why a query result could not be mapped to `User` values.
#[derive(PartialEq, Eq, Structural, Clone, Copy, Debug)]
pub enum MapError {
    /// Column count, a column name, or a column type disagrees with
    /// `(age int4, name text)`.
    Columns,
    /// A row holds a null where a value is required.
    NullValue,
    /// A cell's type disagrees with its column.
    ValueType,
}

impl MapError {
    /// A short description, used as the message of a resolver error.
    pub open spec fn spec_text(self) -> Seq<char> {
        match self {
            MapError::Columns => "result columns do not match (age int4, name text)"@,
            MapError::NullValue => "null value in a non-null column"@,
            MapError::ValueType => "cell type does not match its column"@,
        }
    }

    /// A short description, used as the message of a resolver error.
    pub fn text(&self) -> (r: Vec<char>)
        ensures
            r@ == self.spec_text(),
    {
        match self {
            MapError::Columns => crate::text::str_chars(
                "result columns do not match (age int4, name text)",
            ),
            MapError::NullValue => crate::text::str_chars("null value in a non-null column"),
            MapError::ValueType => crate::text::str_chars("cell type does not match its column"),
        }
    }
}

/// Do the columns describe `(age int4, name text)`?
pub open spec fn cols_ok(cols: Seq<ColDesc>) -> bool {
    &&& cols.len() == 2
    &&& cols[0].name@ == "age"@
    &&& cols[0].ty is Int4
    &&& cols[1].name@ == "name"@
    &&& cols[1].ty is Text
}

/// The `User` a single row maps to, or the first mapping error in it.
///
/// Cells are examined left to right; a null is reported before a type
/// mismatch in a later cell.
pub open spec fn spec_row_value(row: Seq<Cell>) -> Result<UserV, MapError> {
    if row.len() != 2 {
        Err(MapError::Columns)
    } else if row[0] is Null || row[1] is Null {
        Err(MapError::NullValue)
    } else {
        match (row[0], row[1]) {
            (Cell::IntCell(a), Cell::TextCell(n)) => Ok(UserV { age: a as int, name: n@ }),
            _ => Err(MapError::ValueType),
        }
    }
}

/// The users mapped from the rows at indices `i..`, or the first error.
pub open spec fn spec_map_from(rows: Seq<Vec<Cell>>, i: int) -> Result<Seq<UserV>, MapError>
    decreases rows.len() - i,
{
    if i < 0 || i >= rows.len() {
        Ok(Seq::empty())
    } else {
        match spec_row_value(rows[i]@) {
            Err(e) => Err(e),
            Ok(u) => match spec_map_from(rows, i + 1) {
                Err(e) => Err(e),
                Ok(rest) => Ok(seq![u] + rest),
            },
        }
    }
}

/// What the mapper returns for a whole query result.
pub open spec fn spec_map_rows(cols: Seq<ColDesc>, rows: Seq<Vec<Cell>>) -> Result<
    Seq<UserV>,
    MapError,
> {
    if !cols_ok(cols) {
        Err(MapError::Columns)
    } else {
        spec_map_from(rows, 0)
    }
}

/// The mathematical values of a vector of users.
pub open spec fn users_view(us: Seq<User>) -> Seq<UserV> {
    Seq::new(us.len(), |i: int| us[i]@)
}

/// Materialise each row of a query result as a [`User`].
///
/// Returns `Ok` exactly when the columns are `(age int4, name text)` and
/// every cell is a non-null value of its column's type; otherwise returns
/// the first mapping error in column-then-row order.
pub fn map_rows(cols: &Vec<ColDesc>, rows: &Vec<Vec<Cell>>) -> (r: Result<Vec<User>, MapError>)
    ensures
        match r {
            Ok(us) => spec_map_rows(cols@, rows@) == Ok::<_, MapError>(users_view(us@)),
            Err(e) => spec_map_rows(cols@, rows@) == Err::<Seq<UserV>, _>(e),
        },
{
    if !check_cols(cols) {
        return Err(MapError::Columns);
    }
    let mut out: Vec<User> = Vec::new();
    let n = rows.len();
    let mut i: usize = 0;
    while i < n
        invariant
            cols_ok(cols@),
            n == rows@.len(),
            i <= n,
            users_view(out@).len() == i,
            match spec_map_from(rows@, i as int) {
                Ok(rest) => spec_map_from(rows@, 0) == Ok::<_, MapError>(
                    users_view(out@) + rest,
                ),
                Err(e) => spec_map_from(rows@, 0) == Err::<Seq<UserV>, _>(e),
            },
        decreases n - i,
    {
        let ghost prev = out@;
        match row_value(&rows[i]) {
            Err(e) => {
                proof {
                    assert(spec_map_from(rows@, i as int) == Err::<Seq<UserV>, MapError>(e));
                }
                return Err(e);
            },
            Ok(u) => {
                out.push(u);
                proof {
                    assert(users_view(out@) =~= users_view(prev) + seq![out@[i as int]@]);
                    if spec_map_from(rows@, i + 1) is Ok {
                        let rest = spec_map_from(rows@, i + 1)->Ok_0;
                        assert(users_view(prev) + (seq![out@[i as int]@] + rest) =~= users_view(
                            out@,
                        ) + rest);
                    }
                }
            },
        }
        i = i + 1;
    }
    proof {
        assert(users_view(out@) + Seq::<UserV>::empty() =~= users_view(out@));
    }
    Ok(out)
}

/// Check that the columns are exactly `(age int4, name text)`.
fn check_cols(cols: &Vec<ColDesc>) -> (r: bool)
    ensures
        r <==> cols_ok(cols@),
{
    if cols.len() != 2 {
        return false;
    }
    let c0_name_ok = crate::text::chars_eq_str(&cols[0].name, "age");
    let c1_name_ok = crate::text::chars_eq_str(&cols[1].name, "name");
    let c0_ty_ok = matches!(cols[0].ty, ColTy::Int4);
    let c1_ty_ok = matches!(cols[1].ty, ColTy::Text);
    c0_name_ok && c1_name_ok && c0_ty_ok && c1_ty_ok
}

/// Map one row, or report the first error in it.
fn row_value(row: &Vec<Cell>) -> (r: Result<User, MapError>)
    ensures
        match r {
            Ok(u) => spec_row_value(row@) == Ok::<_, MapError>(u@),
            Err(e) => spec_row_value(row@) == Err::<UserV, _>(e),
        },
{
    if row.len() != 2 {
        return Err(MapError::Columns);
    }
    match (&row[0], &row[1]) {
        (Cell::Null, _) => Err(MapError::NullValue),
        (_, Cell::Null) => Err(MapError::NullValue),
        (Cell::IntCell(a), Cell::TextCell(n)) => {
            let mut name: Vec<char> = Vec::new();
            let m = n.len();
            let mut j: usize = 0;
            while j < m
                invariant
                    m == n@.len(),
                    j <= m,
                    name@ == n@.subrange(0, j as int),
                decreases m - j,
            {
                name.push(n[j]);
                proof {
                    assert(name@ =~= n@.subrange(0, j + 1 as int));
                }
                j = j + 1;
            }
            proof {
                assert(name@ =~= n@);
            }
            Ok(User { age: *a, name })
        },
        _ => Err(MapError::ValueType),
    }
}

} // verus!
