//! Two-dimensional arrays: a number of rows and of columns, and the elements
//! row by row.

use vstd::prelude::*;
use vstd::string::*;
use crate::registry::{resolves, Entries, MetaSchema, MetaSchemaRef, MetaSchemaRefView, MetaSchemaView, Registry};
use crate::types::error::{ParseError, ParseErrorView};
use crate::types::integer::lemma_int32_reads_back;
use crate::types::{deep_seq, present_raw_values, reads_back, ParseFromJSON, ToJSON, Type};
use crate::value::{lemma_array_view, values_view, Value, ValueView};

verus! {

/// Why a shape cannot be given to elements.
#[derive(Clone, Copy, Debug, PartialEq, Eq, Structural)]
pub enum ShapeError {
    /// The shape counts fewer elements than were given.
    IncompatibleShape,
    /// The shape counts more elements than were given.
    OutOfBounds,
    /// The axes that are not empty multiply beyond the largest offset.
    Overflow,
}

impl ShapeError {
    /// The error in words.
    pub open spec fn spec_describe(self) -> Seq<char> {
        match self {
            ShapeError::IncompatibleShape => "ShapeError/IncompatibleShape: incompatible shapes"@,
            ShapeError::OutOfBounds => "ShapeError/OutOfBounds: out of bounds indexing"@,
            ShapeError::Overflow => "ShapeError/Overflow: arithmetic overflow"@,
        }
    }

    /// The error in words.
    pub fn describe(&self) -> (words: &'static str)
        ensures
            words@ == self.spec_describe(),
    {
        match self {
            ShapeError::IncompatibleShape => "ShapeError/IncompatibleShape: incompatible shapes",
            ShapeError::OutOfBounds => "ShapeError/OutOfBounds: out of bounds indexing",
            ShapeError::Overflow => "ShapeError/Overflow: arithmetic overflow",
        }
    }
}

/// The length of an axis, with an empty axis counted as one.
pub open spec fn axis_or_one(length: nat) -> nat {
    if length == 0 {
        1
    } else {
        length
    }
}

/// Whether a shape can be addressed: the axes that are not empty multiply
/// to no more than the largest offset.
pub open spec fn shape_fits(rows: nat, cols: nat) -> bool {
    axis_or_one(rows) * axis_or_one(cols) <= isize::MAX
}

/// What stands against giving a shape to `count` elements, if anything: the
/// shape cannot be addressed, or it counts more or fewer elements.
pub open spec fn shape_error(rows: nat, cols: nat, count: nat) -> Option<ShapeError> {
    if !shape_fits(rows, cols) {
        Some(ShapeError::Overflow)
    } else if rows * cols > count {
        Some(ShapeError::OutOfBounds)
    } else if rows * cols < count {
        Some(ShapeError::IncompatibleShape)
    } else {
        None
    }
}

/// A two-dimensional array. The elements are held row by row, there are as
/// many of them as rows times columns, and the shape can be addressed.
#[derive(Debug, PartialEq, Eq)]
pub struct Array2<T> {
    rows: usize,
    cols: usize,
    data: Vec<T>,
}

/// The content of an [`Array2`]: its shape, and its elements' contents row by
/// row.
pub ghost struct Array2View<V> {
    pub rows: nat,
    pub cols: nat,
    pub elements: Seq<V>,
}

/// The serialized forms of the contents that have one, in order.
pub open spec fn present_json<T: ToJSON>(contents: Seq<T::V>) -> Seq<ValueView>
    decreases contents.len(),
{
    if contents.len() == 0 {
        Seq::empty()
    } else {
        let before = present_json::<T>(contents.drop_last());
        match T::spec_to_json(contents.last()) {
            Some(json) => before.push(json),
            None => before,
        }
    }
}

/// Row `row` of an array with `cols` columns whose elements are `elements`.
pub open spec fn row_of<V>(elements: Seq<V>, cols: nat, row: int) -> Seq<V> {
    elements.subrange(row * cols, (row + 1) * cols)
}

/// Row `row` lies within the elements, and so does each of its columns.
proof fn lemma_row_in_bounds(rows: nat, cols: nat, row: int, col: int)
    requires
        0 <= row < rows,
        0 <= col <= cols,
    ensures
        0 <= row * cols <= row * cols + col <= (row + 1) * cols <= rows * cols,
        (row + 1) * cols == row * cols + cols,
        col < cols ==> row * cols + col < rows * cols,
{
    assert(0 <= row * cols) by (nonlinear_arith)
        requires
            0 <= row,
            0 <= cols,
    ;
    assert((row + 1) * cols == row * cols + cols) by (nonlinear_arith);
    assert((row + 1) * cols <= rows * cols) by (nonlinear_arith)
        requires
            row + 1 <= rows,
            0 <= cols,
    ;
}

impl<T> Array2<T> {
    #[verifier::type_invariant]
    spec fn shape_counts_elements(&self) -> bool {
        &&& self.data@.len() == self.rows * self.cols
        &&& shape_fits(self.rows as nat, self.cols as nat)
    }

    /// The number of rows.
    pub closed spec fn spec_nrows(&self) -> nat {
        self.rows as nat
    }

    /// The number of columns.
    pub closed spec fn spec_ncols(&self) -> nat {
        self.cols as nat
    }

    /// The elements, row by row.
    pub closed spec fn spec_elements(&self) -> Seq<T> {
        self.data@
    }

    /// The array of the given shape that holds `data` row by row, if the
    /// shape can be addressed and counts as many elements as `data` has.
    pub fn from_shape_vec(shape: (usize, usize), data: Vec<T>) -> (made: Result<
        Array2<T>,
        ShapeError,
    >)
        ensures
            match made {
                Ok(array) => {
                    &&& shape_error(shape.0 as nat, shape.1 as nat, data@.len()).is_none()
                    &&& array.spec_nrows() == shape.0
                    &&& array.spec_ncols() == shape.1
                    &&& array.spec_elements() == data@
                },
                Err(error) => shape_error(shape.0 as nat, shape.1 as nat, data@.len()) == Some(
                    error,
                ),
            },
    {
        let given = data.len();
        let rows = shape.0;
        let cols = shape.1;
        let rows_or_one = if rows == 0 {
            1
        } else {
            rows
        };
        let cols_or_one = if cols == 0 {
            1
        } else {
            cols
        };
        let fits = match rows_or_one.checked_mul(cols_or_one) {
            Some(product) => product <= isize::MAX as usize,
            None => false,
        };
        if !fits {
            return Err(ShapeError::Overflow);
        }
        assert(rows * cols <= rows_or_one * cols_or_one) by (nonlinear_arith)
            requires
                rows <= rows_or_one,
                cols <= cols_or_one,
        ;
        let count = rows * cols;
        if count > given {
            Err(ShapeError::OutOfBounds)
        } else if count < given {
            Err(ShapeError::IncompatibleShape)
        } else {
            Ok(Array2 { rows, cols, data })
        }
    }

    /// The number of rows and the number of columns. Together they count the
    /// elements, and they can be addressed.
    pub fn shape(&self) -> (shape: (usize, usize))
        ensures
            shape.0 == self.spec_nrows(),
            shape.1 == self.spec_ncols(),
            self.spec_elements().len() == self.spec_nrows() * self.spec_ncols(),
            shape_fits(self.spec_nrows(), self.spec_ncols()),
    {
        proof {
            use_type_invariant(self);
        }
        (self.rows, self.cols)
    }

    /// The number of elements.
    pub fn len(&self) -> (count: usize)
        ensures
            count == self.spec_elements().len(),
    {
        self.data.len()
    }

    /// The element in row `row` and column `col`, if the array has one there.
    pub fn get(&self, row: usize, col: usize) -> (element: Option<&T>)
        ensures
            match element {
                Some(element) => {
                    &&& row < self.spec_nrows()
                    &&& col < self.spec_ncols()
                    &&& row * self.spec_ncols() + col < self.spec_elements().len()
                    &&& *element == self.spec_elements()[row * self.spec_ncols() + col]
                },
                None => row >= self.spec_nrows() || col >= self.spec_ncols(),
            },
    {
        if row < self.rows && col < self.cols {
            proof {
                use_type_invariant(self);
                lemma_row_in_bounds(self.rows as nat, self.cols as nat, row as int, col as int);
                assert(self.data@.len() == self.data.len());
            }
            Some(&self.data[row * self.cols + col])
        } else {
            None
        }
    }

    /// The elements, row by row.
    pub fn as_slice(&self) -> (elements: &[T])
        ensures
            elements@ == self.spec_elements(),
    {
        self.data.as_slice()
    }

    /// The elements, row by row, without the shape.
    pub fn into_raw_vec(self) -> (elements: Vec<T>)
        ensures
            elements@ == self.spec_elements(),
    {
        self.data
    }
}

impl<T: DeepView> DeepView for Array2<T> {
    type V = Array2View<T::V>;

    open spec fn deep_view(&self) -> Array2View<T::V> {
        Array2View {
            rows: self.spec_nrows(),
            cols: self.spec_ncols(),
            elements: deep_seq(self.spec_elements()),
        }
    }
}

impl<T: Type> Type for Array2<T> {
    type RawValueType = Array2<T>;

    type RawElementValueType = T::RawValueType;

    open spec fn spec_name() -> Seq<char> {
        "ndarray2_"@ + T::spec_name()
    }

    open spec fn spec_is_required() -> bool {
        true
    }

    open spec fn spec_schema_ref() -> MetaSchemaRefView {
        MetaSchemaRefView::Inline(
            Box::new(
                MetaSchemaView::array_of(
                    MetaSchemaRefView::Inline(
                        Box::new(MetaSchemaView::array_of(T::spec_schema_ref())),
                    ),
                ),
            ),
        )
    }

    open spec fn spec_register(entries: Entries) -> Entries {
        T::spec_register(entries)
    }

    open spec fn spec_as_raw_value(&self) -> Option<Array2<T>> {
        Some(*self)
    }

    open spec fn spec_raw_elements(&self) -> Seq<T::RawValueType> {
        present_raw_values(self.spec_elements())
    }

    open spec fn spec_is_empty(&self) -> bool {
        self.spec_elements().len() == 0
    }

    proof fn lemma_register_keeps_names_distinct(entries: Entries) {
        T::lemma_register_keeps_names_distinct(entries);
    }

    proof fn lemma_register_resolves(entries: Entries) {
        reveal_with_fuel(resolves, 3);
        T::lemma_register_resolves(entries);
    }

    proof fn lemma_register_idempotent(entries: Entries) {
        T::lemma_register_idempotent(entries);
    }

    fn name() -> (name: String) {
        String::from_str("ndarray2_").concat(T::name().as_str())
    }

    fn is_required() -> (required: bool) {
        true
    }

    fn schema_ref() -> (schema: MetaSchemaRef) {
        MetaSchemaRef::Inline(
            Box::new(
                MetaSchema::array_of(
                    MetaSchemaRef::Inline(Box::new(MetaSchema::array_of(T::schema_ref()))),
                ),
            ),
        )
    }

    fn register(registry: &mut Registry) {
        T::register(registry);
    }

    fn as_raw_value(&self) -> (raw: Option<&Array2<T>>) {
        Some(self)
    }

    fn raw_element_iter(&self) -> (elements: Vec<&T::RawValueType>) {
        let mut elements: Vec<&T::RawValueType> = Vec::new();
        let mut i: usize = 0;
        while i < self.data.len()
            invariant
                i <= self.data.len(),
                elements@.len() == present_raw_values(self.data@.take(i as int)).len(),
                forall|k: int|
                    0 <= k < elements@.len() ==> *(#[trigger] elements@[k]) == present_raw_values(
                        self.data@.take(i as int),
                    )[k],
            decreases self.data.len() - i,
        {
            assert(self.data@.take(i + 1).drop_last() =~= self.data@.take(i as int));
            match self.data[i].as_raw_value() {
                Some(raw) => {
                    elements.push(raw);
                },
                None => {},
            }
            i += 1;
        }
        assert(self.data@.take(i as int) =~= self.data@);
        elements
    }

    fn is_empty(&self) -> (empty: bool) {
        self.data.len() == 0
    }
}

/// The cells of a row that is an array; a row that is none has no cells.
pub open spec fn row_cells(row: ValueView) -> Seq<ValueView> {
    match row {
        ValueView::Array(cells) => cells,
        _ => Seq::empty(),
    }
}

/// Whether `row` is an array of `cols` cells.
pub open spec fn is_row_of(row: ValueView, cols: nat) -> bool {
    row is Array && row_cells(row).len() == cols
}

/// Whether every one of `rows` is an array of `cols` cells.
pub open spec fn rectangular(rows: Seq<ValueView>, cols: nat) -> bool {
    forall|i: int| 0 <= i < rows.len() ==> is_row_of(#[trigger] rows[i], cols)
}

/// The cells of `rows`, row by row.
pub open spec fn all_cells(rows: Seq<ValueView>) -> Seq<ValueView>
    decreases rows.len(),
{
    if rows.len() == 0 {
        Seq::empty()
    } else {
        all_cells(rows.drop_last()) + row_cells(rows.last())
    }
}

/// The contents read from `cells`, in order. The first cell that cannot be
/// read decides the outcome: its error, marked as that of a component.
pub open spec fn parse_cells<T: ParseFromJSON>(cells: Seq<ValueView>) -> Result<
    Seq<T::V>,
    ParseErrorView,
>
    decreases cells.len(),
{
    if cells.len() == 0 {
        Ok(Seq::empty())
    } else {
        match parse_cells::<T>(cells.drop_last()) {
            Ok(before) => match T::spec_parse_from_json(cells.last()) {
                Ok(content) => Ok(before.push(content)),
                Err(error) => Err(ParseErrorView::Propagated(Box::new(error))),
            },
            Err(error) => Err(error),
        }
    }
}

/// Reading one more cell after cells that were read.
proof fn lemma_parse_cells_push<T: ParseFromJSON>(cells: Seq<ValueView>, cell: ValueView)
    ensures
        parse_cells::<T>(cells.push(cell)) == match parse_cells::<T>(cells) {
            Ok(before) => match T::spec_parse_from_json(cell) {
                Ok(content) => Ok::<Seq<T::V>, ParseErrorView>(before.push(content)),
                Err(error) => Err(ParseErrorView::Propagated(Box::new(error))),
            },
            Err(error) => Err(error),
        },
{
    assert(cells.push(cell).drop_last() =~= cells);
}

/// A failure among the first cells is the failure of the whole.
proof fn lemma_parse_cells_fails_early<T: ParseFromJSON>(cells: Seq<ValueView>, count: int)
    requires
        0 <= count <= cells.len(),
        parse_cells::<T>(cells.take(count)) is Err,
    ensures
        parse_cells::<T>(cells) == parse_cells::<T>(cells.take(count)),
    decreases cells.len(),
{
    if count == cells.len() {
        assert(cells.take(count) =~= cells);
    } else {
        assert(cells.drop_last().take(count) =~= cells.take(count));
        lemma_parse_cells_fails_early::<T>(cells.drop_last(), count);
    }
}

/// The cells of the first rows and the first cells of the next row begin the
/// cells of all rows.
proof fn lemma_all_cells_begin(rows: Seq<ValueView>, row: int, col: int)
    requires
        0 <= row < rows.len(),
        0 <= col <= row_cells(rows[row]).len(),
    ensures
        all_cells(rows.take(row)).len() + col <= all_cells(rows).len(),
        all_cells(rows).take(all_cells(rows.take(row)).len() + col) == all_cells(rows.take(row))
            + row_cells(rows[row]).take(col),
    decreases rows.len(),
{
    let before = rows.drop_last();
    if row == rows.len() - 1 {
        assert(rows.take(row) =~= before);
        assert(all_cells(rows).take(all_cells(before).len() + col) =~= all_cells(before)
            + row_cells(rows[row]).take(col));
    } else {
        lemma_all_cells_begin(before, row, col);
        assert(before.take(row) =~= rows.take(row));
        assert(before[row] == rows[row]);
        let count = all_cells(rows.take(row)).len() + col;
        assert(all_cells(rows).take(count) =~= all_cells(before).take(count));
    }
}

/// The cells of one more row.
proof fn lemma_all_cells_next(rows: Seq<ValueView>, row: int)
    requires
        0 <= row < rows.len(),
    ensures
        all_cells(rows.take(row + 1)) == all_cells(rows.take(row)) + row_cells(rows[row]),
{
    assert(rows.take(row + 1).drop_last() =~= rows.take(row));
}

impl<T: ParseFromJSON> ParseFromJSON for Array2<T> {
    open spec fn spec_parse_from_json(value: ValueView) -> Result<Array2View<T::V>, ParseErrorView> {
        match value {
            ValueView::Array(rows) => if rows.len() == 0 {
                Ok(Array2View { rows: 0, cols: 0, elements: Seq::empty() })
            } else if !(rows[0] is Array) {
                Err(ParseErrorView::Custom("Expected array of arrays"@))
            } else if !rectangular(rows, row_cells(rows[0]).len()) {
                Err(ParseErrorView::Custom("All rows must have same length"@))
            } else {
                match parse_cells::<T>(all_cells(rows)) {
                    Ok(elements) => if shape_fits(rows.len(), row_cells(rows[0]).len()) {
                        Ok(Array2View { rows: rows.len(), cols: row_cells(rows[0]).len(), elements })
                    } else {
                        Err(ParseErrorView::Custom(ShapeError::Overflow.spec_describe()))
                    },
                    Err(error) => Err(error),
                }
            },
            _ => Err(ParseErrorView::ExpectedType(value)),
        }
    }

    fn parse_from_json(value: Option<Value>) -> (parsed: Result<Array2<T>, ParseError>) {
        let ghost input = Value::spec_or_null(value);
        match Value::or_null(value) {
            Value::Array(rows) => {
                proof {
                    lemma_array_view(rows);
                }
                let ghost row_views = values_view(rows@);
                let n_rows = rows.len();
                if n_rows == 0 {
                    let none: usize = 0;
                    let data: Vec<T> = Vec::new();
                    assert(data@.len() == none * none) by (nonlinear_arith)
                        requires
                            data@.len() == 0,
                            none == 0,
                    ;
                    assert(shape_fits(0, 0)) by (nonlinear_arith)
                        requires
                            axis_or_one(0) == 1,
                            isize::MAX >= 1,
                    ;
                    let array = Array2 { rows: none, cols: none, data };
                    assert(array.deep_view().elements =~= Seq::<T::V>::empty());
                    return Ok(array);
                }
                let n_cols = match &rows[0] {
                    Value::Array(cols) => {
                        proof {
                            lemma_array_view(*cols);
                        }
                        cols.len()
                    },
                    _ => {
                        return Err(ParseError::custom("Expected array of arrays"));
                    },
                };
                let mut checked: usize = 0;
                while checked < n_rows
                    invariant
                        checked <= n_rows,
                        0 < n_rows == rows@.len(),
                        row_views == values_view(rows@),
                        input == Value::spec_or_null(value),
                        input == ValueView::Array(row_views),
                        row_views[0] is Array,
                        n_cols == row_cells(row_views[0]).len(),
                        forall|k: int| 0 <= k < checked ==> is_row_of(#[trigger] row_views[k], n_cols as nat),
                    decreases n_rows - checked,
                {
                    match &rows[checked] {
                        Value::Array(cols) => {
                            proof {
                                lemma_array_view(*cols);
                            }
                            if cols.len() != n_cols {
                                assert(!is_row_of(row_views[checked as int], n_cols as nat));
                                return Err(ParseError::custom("All rows must have same length"));
                            }
                        },
                        _ => {
                            assert(!is_row_of(row_views[checked as int], n_cols as nat));
                            return Err(ParseError::custom("All rows must have same length"));
                        },
                    }
                    checked += 1;
                }
                assert(rectangular(row_views, n_cols as nat));
                let mut data: Vec<T> = Vec::new();
                let ghost mut done: Seq<ValueView> = Seq::empty();
                assert(row_views.take(0) =~= Seq::<ValueView>::empty());
                assert(deep_seq(data@) =~= Seq::<T::V>::empty());
                for row in row_iter: rows
                    invariant
                        row_iter.seq() == rows@,
                        row_views == values_view(rows@),
                        0 < n_rows == rows@.len(),
                        input == Value::spec_or_null(value),
                        input == ValueView::Array(row_views),
                        row_views[0] is Array,
                        n_cols == row_cells(row_views[0]).len(),
                        rectangular(row_views, n_cols as nat),
                        done == all_cells(row_views.take(row_iter.index())),
                        parse_cells::<T>(done) == Ok::<Seq<T::V>, ParseErrorView>(deep_seq(data@)),
                        data@.len() == row_iter.index() * n_cols,
                {
                    let ghost row_index = row_iter.index();
                    assert(is_row_of(row_views[row_index], n_cols as nat));
                    match row {
                        Value::Array(cols) => {
                            proof {
                                lemma_array_view(cols);
                            }
                            let ghost cell_views = values_view(cols@);
                            let ghost before_row = done;
                            assert(cell_views.take(0) =~= Seq::<ValueView>::empty());
                            assert(done =~= before_row + cell_views.take(0));
                            for col in col_iter: cols
                                invariant
                                    col_iter.seq() == cols@,
                                    cell_views == values_view(cols@),
                                    cell_views == row_cells(row_views[row_index]),
                                    cell_views.len() == n_cols,
                                    0 <= row_index < row_views.len(),
                                    input == Value::spec_or_null(value),
                        input == ValueView::Array(row_views),
                                    row_views[0] is Array,
                                    n_cols == row_cells(row_views[0]).len(),
                                    rectangular(row_views, n_cols as nat),
                                    before_row == all_cells(row_views.take(row_index)),
                                    done == before_row + cell_views.take(col_iter.index()),
                                    parse_cells::<T>(done) == Ok::<Seq<T::V>, ParseErrorView>(
                                        deep_seq(data@),
                                    ),
                                    data@.len() == row_index * n_cols + col_iter.index(),
                            {
                                let ghost col_index = col_iter.index();
                                let ghost cell = col@;
                                proof {
                                    lemma_parse_cells_push::<T>(done, cell);
                                    assert(cell_views.take(col_index + 1) =~= cell_views.take(
                                        col_index,
                                    ).push(cell));
                                    assert(before_row + cell_views.take(col_index + 1) =~= done.push(
                                        cell,
                                    ));
                                }
                                match T::parse_from_json(Some(col)) {
                                    Ok(element) => {
                                        proof {
                                            assert(deep_seq(data@.push(element)) =~= deep_seq(
                                                data@,
                                            ).push(element.deep_view()));
                                        }
                                        data.push(element);
                                    },
                                    Err(error) => {
                                        proof {
                                            lemma_all_cells_begin(row_views, row_index, col_index + 1);
                                            lemma_parse_cells_fails_early::<T>(
                                                all_cells(row_views),
                                                before_row.len() + col_index + 1,
                                            );
                                        }
                                        return Err(error.propagate());
                                    },
                                }
                                proof {
                                    done = done.push(cell);
                                }
                            }
                            proof {
                                assert(cell_views.take(cell_views.len() as int) =~= cell_views);
                                lemma_all_cells_next(row_views, row_index);
                                assert((row_index + 1) * n_cols == row_index * n_cols + n_cols)
                                    by (nonlinear_arith);
                            }
                        },
                        _ => {
                            assert(false);
                        },
                    }
                }
                assert(row_views.take(row_views.len() as int) =~= row_views);
                match Array2::from_shape_vec((n_rows, n_cols), data) {
                    Ok(array) => Ok(array),
                    Err(error) => Err(ParseError::custom(error.describe())),
                }
            },
            other => Err(ParseError::expected_type(other)),
        }
    }
}

impl<T: ToJSON> ToJSON for Array2<T> {
    open spec fn spec_to_json(content: Array2View<T::V>) -> Option<ValueView> {
        Some(
            ValueView::Array(
                Seq::new(
                    content.rows,
                    |row: int|
                        ValueView::Array(
                            present_json::<T>(row_of(content.elements, content.cols, row)),
                        ),
                ),
            ),
        )
    }

    fn to_json(&self) -> (json: Option<Value>)
        ensures
            json.is_some(),
    {
        proof {
            use_type_invariant(self);
        }
        let ghost contents = deep_seq(self.data@);
        let ghost cols = self.cols as nat;
        let mut rows: Vec<Value> = Vec::new();
        let mut row_idx: usize = 0;
        while row_idx < self.rows
            invariant
                row_idx <= self.rows,
                self.data@.len() == self.rows * self.cols,
                contents == deep_seq(self.data@),
                cols == self.cols,
                rows@.len() == row_idx,
                forall|r: int|
                    0 <= r < row_idx ==> (#[trigger] rows@[r])@ == ValueView::Array(
                        present_json::<T>(row_of(contents, cols, r)),
                    ),
            decreases self.rows - row_idx,
        {
            let mut row: Vec<Value> = Vec::new();
            let mut col_idx: usize = 0;
            let ghost start = row_idx * self.cols;
            proof {
                lemma_row_in_bounds(self.rows as nat, cols, row_idx as int, 0);
                assert(contents.subrange(start, start) =~= Seq::<T::V>::empty());
                assert(values_view(row@) =~= Seq::<ValueView>::empty());
            }
            while col_idx < self.cols
                invariant
                    col_idx <= self.cols,
                    row_idx < self.rows,
                    self.data@.len() == self.rows * self.cols,
                    contents == deep_seq(self.data@),
                    cols == self.cols,
                    start == row_idx * self.cols,
                    values_view(row@) == present_json::<T>(
                        contents.subrange(start, start + col_idx),
                    ),
                decreases self.cols - col_idx,
            {
                proof {
                    lemma_row_in_bounds(self.rows as nat, cols, row_idx as int, col_idx as int + 1);
                    assert(self.data@.len() == self.data.len());
                    assert(contents.subrange(start, start + col_idx + 1).drop_last()
                        =~= contents.subrange(start, start + col_idx));
                }
                let ghost before = values_view(row@);
                match self.data[row_idx * self.cols + col_idx].to_json() {
                    Some(value) => {
                        row.push(value);
                        assert(values_view(row@) =~= before.push(value@));
                    },
                    None => {},
                }
                col_idx += 1;
            }
            proof {
                lemma_array_view(row);
                lemma_row_in_bounds(self.rows as nat, cols, row_idx as int, 0);
            }
            rows.push(Value::Array(row));
            row_idx += 1;
        }
        proof {
            lemma_array_view(rows);
            assert(values_view(rows@) =~= Seq::new(
                self.rows as nat,
                |row: int| ValueView::Array(present_json::<T>(row_of(contents, cols, row))),
            ));
        }
        Some(Value::Array(rows))
    }
}

/// The cells of a value that is an array of rows, row by row.
pub open spec fn cells_of(value: ValueView) -> Seq<ValueView> {
    all_cells(row_cells(value))
}

/// Cells that were read were read one by one, in order.
proof fn lemma_parse_cells_each<T: ParseFromJSON>(cells: Seq<ValueView>)
    requires
        parse_cells::<T>(cells) is Ok,
    ensures
        parse_cells::<T>(cells)->Ok_0.len() == cells.len(),
        forall|i: int|
            0 <= i < cells.len() ==> T::spec_parse_from_json(#[trigger] cells[i]) == Ok::<
                T::V,
                ParseErrorView,
            >(parse_cells::<T>(cells)->Ok_0[i]),
    decreases cells.len(),
{
    if cells.len() > 0 {
        let before = cells.drop_last();
        lemma_parse_cells_each::<T>(before);
        assert forall|i: int| 0 <= i < cells.len() implies T::spec_parse_from_json(
            #[trigger] cells[i],
        ) == Ok::<T::V, ParseErrorView>(parse_cells::<T>(cells)->Ok_0[i]) by {
            if i < before.len() {
                assert(before[i] == cells[i]);
            }
        }
    }
}

/// In rows of equal length, the cell in a row and column stands at the row's
/// start plus the column.
proof fn lemma_all_cells_at(rows: Seq<ValueView>, cols: nat)
    requires
        rectangular(rows, cols),
    ensures
        all_cells(rows).len() == rows.len() * cols,
        forall|row: int, col: int|
            0 <= row < rows.len() && 0 <= col < cols ==> all_cells(rows)[row * cols + col]
                == #[trigger] row_cells(rows[row])[col],
    decreases rows.len(),
{
    if rows.len() > 0 {
        let before = rows.drop_last();
        let last = rows.len() - 1;
        assert(rectangular(before, cols)) by {
            assert forall|i: int| 0 <= i < before.len() implies is_row_of(
                #[trigger] before[i],
                cols,
            ) by {
                assert(before[i] == rows[i]);
                assert(is_row_of(rows[i], cols));
            }
        }
        lemma_all_cells_at(before, cols);
        assert(is_row_of(rows[last], cols));
        assert(rows.len() * cols == before.len() * cols + cols) by (nonlinear_arith)
            requires
                rows.len() == before.len() + 1,
        ;
        assert forall|row: int, col: int|
            0 <= row < rows.len() && 0 <= col < cols implies all_cells(rows)[row * cols + col]
            == #[trigger] row_cells(rows[row])[col] by {
            lemma_row_in_bounds(rows.len(), cols, row, col);
            if row < last {
                assert(before[row] == rows[row]);
                lemma_row_in_bounds(before.len(), cols, row, col);
                assert(all_cells(before)[row * cols + col] == row_cells(before[row])[col]);
            } else {
                assert(row * cols == all_cells(before).len());
            }
        }
    } else {
        assert(rows.len() * cols == 0) by (nonlinear_arith)
            requires
                rows.len() == 0,
        ;
    }
}

/// Contents that each serialize to the cell at their place serialize to the
/// cells.
proof fn lemma_present_json_each<T: ToJSON>(contents: Seq<T::V>, cells: Seq<ValueView>)
    requires
        contents.len() == cells.len(),
        forall|i: int| 0 <= i < contents.len() ==> T::spec_to_json(#[trigger] contents[i]) == Some(cells[i]),
    ensures
        present_json::<T>(contents) == cells,
    decreases contents.len(),
{
    if contents.len() > 0 {
        let last = contents.len() - 1;
        assert forall|i: int| 0 <= i < contents.drop_last().len() implies T::spec_to_json(
            #[trigger] contents.drop_last()[i],
        ) == Some(cells.drop_last()[i]) by {
            assert(contents.drop_last()[i] == contents[i]);
        }
        lemma_present_json_each::<T>(contents.drop_last(), cells.drop_last());
        assert(T::spec_to_json(contents[last]) == Some(cells[last]));
        assert(cells.drop_last().push(cells[last]) =~= cells);
    } else {
        assert(cells =~= Seq::<ValueView>::empty());
    }
}

/// A value that reads as a two-dimensional array is written again as itself,
/// provided that the element type writes each of the value's cells again as
/// itself.
pub proof fn lemma_json_round_trip<T: ParseFromJSON + ToJSON>(value: ValueView)
    requires
        Array2::<T>::spec_parse_from_json(value) is Ok,
        forall|i: int| 0 <= i < cells_of(value).len() ==> reads_back::<T>(#[trigger] cells_of(value)[i]),
    ensures
        Array2::<T>::spec_to_json(Array2::<T>::spec_parse_from_json(value)->Ok_0) == Some(value),
{
    let rows = row_cells(value);
    let array = Array2::<T>::spec_parse_from_json(value)->Ok_0;
    let written = Array2::<T>::spec_to_json(array)->Some_0->Array_0;
    if rows.len() == 0 {
        assert(written =~= rows);
    } else {
        let cols = row_cells(rows[0]).len();
        let cells = all_cells(rows);
        let elements = parse_cells::<T>(cells)->Ok_0;
        lemma_parse_cells_each::<T>(cells);
        lemma_all_cells_at(rows, cols);
        assert forall|row: int| 0 <= row < rows.len() implies written[row] == rows[row] by {
            let in_row = row_of(elements, cols, row);
            let row_values = row_cells(rows[row]);
            lemma_row_in_bounds(rows.len(), cols, row, 0);
            assert(is_row_of(rows[row], cols));
            assert forall|col: int| 0 <= col < in_row.len() implies T::spec_to_json(
                #[trigger] in_row[col],
            ) == Some(row_values[col]) by {
                lemma_row_in_bounds(rows.len(), cols, row, col);
                let at = row * cols + col;
                assert(cells[at] == row_cells(rows[row])[col]);
                assert(in_row[col] == elements[at]);
                assert(T::spec_parse_from_json(cells[at]) == Ok::<T::V, ParseErrorView>(elements[at]));
                assert(reads_back::<T>(cells_of(value)[at]));
            }
            lemma_present_json_each::<T>(in_row, row_values);
        }
        assert(written =~= rows);
    }
}

/// Arrays of element types with different names have different names.
pub proof fn lemma_names_differ<T: Type, U: Type>()
    requires
        T::spec_name() != U::spec_name(),
    ensures
        Array2::<T>::spec_name() != Array2::<U>::spec_name(),
{
    let prefix = "ndarray2_"@;
    let first = prefix + T::spec_name();
    let second = prefix + U::spec_name();
    assert(first.subrange(prefix.len() as int, first.len() as int) =~= T::spec_name());
    assert(second.subrange(prefix.len() as int, second.len() as int) =~= U::spec_name());
}

/// The shape is judged before any element is read: rows that are not all
/// arrays of the first row's length are refused for their length, whatever
/// the cells hold and whatever the element type makes of them.
pub proof fn lemma_shape_is_checked_first<T: ParseFromJSON>(rows: Seq<ValueView>)
    requires
        rows.len() > 0,
        rows[0] is Array,
        !rectangular(rows, row_cells(rows[0]).len()),
    ensures
        Array2::<T>::spec_parse_from_json(ValueView::Array(rows)) == Err::<
            Array2View<T::V>,
            ParseErrorView,
        >(ParseErrorView::Custom("All rows must have same length"@)),
{
}

/// A value that reads as a two-dimensional array of 32-bit integers is
/// written again as itself.
pub proof fn lemma_int32_json_round_trip(value: ValueView)
    requires
        Array2::<i32>::spec_parse_from_json(value) is Ok,
    ensures
        Array2::<i32>::spec_to_json(Array2::<i32>::spec_parse_from_json(value)->Ok_0) == Some(value),
{
    assert forall|i: int| 0 <= i < cells_of(value).len() implies reads_back::<i32>(
        #[trigger] cells_of(value)[i],
    ) by {
        lemma_int32_reads_back(cells_of(value)[i]);
    }
    lemma_json_round_trip::<i32>(value);
}

} // verus!
