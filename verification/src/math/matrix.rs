//! Matrices, and their arithmetic over `i32`.

use vstd::prelude::*;

verus! {

/// The rows of a matrix: each a sequence of its items.
pub type Rows<T> = Seq<Seq<T>>;

/// Whether every row of `rows` is as long as the first.
pub open spec fn rectangular<T>(rows: Rows<T>) -> bool {
    forall|i: int| 0 <= i < rows.len() ==> (#[trigger] rows[i]).len() == rows[0].len()
}

/// The items of the first `n` rows, row after row.
pub open spec fn flattened_upto<T>(rows: Rows<T>, n: int) -> Seq<T>
    decreases n,
{
    if n <= 0 {
        Seq::empty()
    } else {
        flattened_upto(rows, n - 1) + rows[n - 1]
    }
}

/// The items of `rows`, row after row.
pub open spec fn flattened<T>(rows: Rows<T>) -> Seq<T> {
    flattened_upto(rows, rows.len() as int)
}

/// The rows of a vector of vectors.
pub open spec fn rows_of<T>(matrix: Vec<Vec<T>>) -> Rows<T> {
    Seq::new(matrix@.len(), |i: int| matrix@[i]@)
}

/// A matrix: at least one row, and all rows of one length.
#[derive(Debug)]
pub struct Matrix<T> {
    matrix: Vec<Vec<T>>,
    flattened: Vec<T>,
    num_rows: usize,
    num_columns: usize,
}

impl<T> View for Matrix<T> {
    type V = Rows<T>;

    closed spec fn view(&self) -> Rows<T> {
        rows_of(self.matrix)
    }
}

impl<T> Matrix<T> {
    #[verifier::type_invariant]
    spec fn well_formed(self) -> bool {
        &&& self.matrix@.len() > 0
        &&& rectangular(rows_of(self.matrix))
        &&& self.num_rows == self.matrix@.len()
        &&& self.num_columns == self.matrix@[0]@.len()
        &&& self.flattened@ == flattened(rows_of(self.matrix))
    }
}

impl<T: Copy> Matrix<T> {
    /// Whether every row of `matrix` is as long as the first.
    pub fn is_valid_matrix(matrix: &Vec<Vec<T>>) -> (res: bool)
        ensures
            res == rectangular(rows_of(*matrix)),
    {
        let mut i: usize = 0;
        while i < matrix.len()
            invariant
                0 <= i <= matrix.len(),
                forall|j: int|
                    0 <= j < i ==> (#[trigger] rows_of(*matrix)[j]).len() == rows_of(*matrix)[0].len(),
            decreases matrix.len() - i,
        {
            if matrix[i].len() != matrix[0].len() {
                assert(rows_of(*matrix)[i as int].len() != rows_of(*matrix)[0].len());
                return false;
            }
            i = i + 1;
        }
        true
    }

    /// The items of `matrix_vec`, row after row.
    pub fn flatted_matrix_vec(matrix_vec: &Vec<Vec<T>>) -> (res: Vec<T>)
        ensures
            res@ == flattened(rows_of(*matrix_vec)),
    {
        let ghost rows = rows_of(*matrix_vec);
        let mut flattened: Vec<T> = Vec::new();
        let mut i: usize = 0;
        while i < matrix_vec.len()
            invariant
                0 <= i <= matrix_vec.len(),
                rows == rows_of(*matrix_vec),
                flattened@ == flattened_upto(rows, i as int),
            decreases matrix_vec.len() - i,
        {
            let row = &matrix_vec[i];
            let mut j: usize = 0;
            while j < row.len()
                invariant
                    0 <= j <= row.len(),
                    i < matrix_vec.len(),
                    row@ == rows[i as int],
                    flattened@ == flattened_upto(rows, i as int) + row@.take(j as int),
                decreases row.len() - j,
            {
                flattened.push(row[j]);
                proof {
                    assert(row@.take(j + 1) =~= row@.take(j as int).push(row@[j as int]));
                    assert(flattened@ =~= flattened_upto(rows, i as int) + row@.take(j + 1));
                }
                j = j + 1;
            }
            proof {
                assert(row@.take(j as int) =~= row@);
            }
            i = i + 1;
        }
        flattened
    }

    /// The number of columns.
    pub fn get_num_columns(&self) -> (res: usize)
        ensures
            res == self@[0].len(),
    {
        proof {
            use_type_invariant(self);
        }
        self.num_columns
    }

    /// The number of rows.
    pub fn get_num_rows(&self) -> (res: usize)
        ensures
            res == self@.len(),
            res > 0,
    {
        proof {
            use_type_invariant(self);
        }
        self.num_rows
    }

    /// The number of rows.
    pub fn len(&self) -> (res: usize)
        ensures
            res == self@.len(),
            res > 0,
    {
        self.get_num_rows()
    }

    /// The items of the matrix, row after row.
    pub fn get_inner_ptr(&self) -> (res: &Vec<T>)
        ensures
            res@ == flattened(self@),
    {
        proof {
            use_type_invariant(self);
        }
        &self.flattened
    }

    /// The row `index`.
    pub fn row(&self, index: usize) -> (res: &Vec<T>)
        requires
            index < self@.len(),
        ensures
            res@ == self@[index as int],
            res@.len() == self@[0].len(),
    {
        proof {
            use_type_invariant(self);
            assert(rows_of(self.matrix)[index as int].len() == rows_of(self.matrix)[0].len());
        }
        &self.matrix[index]
    }

    /// The item in the row `row` and the column `column`.
    pub fn get(&self, row: usize, column: usize) -> (res: T)
        requires
            row < self@.len(),
            column < self@[0].len(),
        ensures
            res == self@[row as int][column as int],
    {
        proof {
            use_type_invariant(self);
            assert(rows_of(self.matrix)[row as int].len() == rows_of(self.matrix)[0].len());
        }
        self.matrix[row][column]
    }

    /// Whether the matrix has as many columns as rows.
    pub fn is_square(&self) -> (res: bool)
        ensures
            res == (self@.len() == self@[0].len()),
    {
        self.get_num_rows() == self.get_num_columns()
    }

    /// Whether `other` has as many rows and as many columns as the matrix
    /// has.
    pub fn has_shape_of(&self, other: &Matrix<T>) -> (res: bool)
        ensures
            res == (self@.len() == other@.len() && self@[0].len() == other@[0].len()),
    {
        self.get_num_rows() == other.get_num_rows() && self.get_num_columns()
            == other.get_num_columns()
    }

    /// Whether the matrix has as many columns as `other` has rows, as a
    /// product of the two asks for.
    pub fn fits_before(&self, other: &Matrix<T>) -> (res: bool)
        ensures
            res == (self@[0].len() == other@.len()),
    {
        self.get_num_columns() == other.get_num_rows()
    }

    /// The matrix with the rows `matrix`, of which there must be one at
    /// least, all of one length.
    pub fn new(matrix: Vec<Vec<T>>) -> (res: Matrix<T>)
        requires
            matrix@.len() > 0,
            rectangular(rows_of(matrix)),
        ensures
            res@ == rows_of(matrix),
    {
        let num_rows = matrix.len();
        let num_columns = matrix[0].len();
        let flattened = Matrix::flatted_matrix_vec(&matrix);
        Matrix { matrix, num_rows, num_columns, flattened }
    }

    /// The matrix with the rows `matrix`, or `None` where there is no row
    /// or the rows differ in length.
    pub fn checked_new(matrix: Vec<Vec<T>>) -> (res: Option<Matrix<T>>)
        ensures
            match res {
                Some(made) => matrix@.len() > 0 && rectangular(rows_of(matrix)) && made@
                    == rows_of(matrix),
                None => matrix@.len() == 0 || !rectangular(rows_of(matrix)),
            },
    {
        if matrix.len() > 0 && Matrix::is_valid_matrix(&matrix) {
            Some(Matrix::new(matrix))
        } else {
            None
        }
    }
}

/// Whether `v` is a value of `i32`.
pub open spec fn fits(v: int) -> bool {
    i32::MIN <= v <= i32::MAX
}

/// `rows` with every item multiplied by `factor`.
pub open spec fn scaled(rows: Rows<i32>, factor: i32) -> Rows<i32> {
    Seq::new(
        rows.len(),
        |i: int| Seq::new(rows[i].len(), |j: int| (rows[i][j] * factor) as i32),
    )
}

/// Whether every item of `rows` can be multiplied by `factor`.
pub open spec fn scalable(rows: Rows<i32>, factor: i32) -> bool {
    forall|i: int, j: int|
        0 <= i < rows.len() && 0 <= j < rows[i].len() ==> fits(#[trigger] rows[i][j] * factor)
}

/// Whether `a` and `b` have the same numbers of rows and of columns.
pub open spec fn same_shape(a: Rows<i32>, b: Rows<i32>) -> bool {
    a.len() == b.len() && a[0].len() == b[0].len()
}

/// The sums of the items of `a` and `b` in the same places.
pub open spec fn summed(a: Rows<i32>, b: Rows<i32>) -> Rows<i32> {
    Seq::new(a.len(), |i: int| Seq::new(a[i].len(), |j: int| (a[i][j] + b[i][j]) as i32))
}

/// Whether the items of `a` and `b` in the same places can be added.
pub open spec fn summable(a: Rows<i32>, b: Rows<i32>) -> bool {
    forall|i: int, j: int|
        0 <= i < a.len() && 0 <= j < a[i].len() ==> fits(#[trigger] a[i][j] + #[trigger] b[i][j])
}

/// The sum of the first `n` products of an item of `row` with the item of
/// the column `column` of `b` in the same place.
pub open spec fn dot_upto(row: Seq<i32>, b: Rows<i32>, column: int, n: int) -> int
    decreases n,
{
    if n <= 0 {
        0
    } else {
        dot_upto(row, b, column, n - 1) + row[n - 1] * b[n - 1][column]
    }
}

/// The product of `a` and `b`, row by column.
pub open spec fn multiplied(a: Rows<i32>, b: Rows<i32>) -> Rows<i32> {
    Seq::new(
        a.len(),
        |i: int| Seq::new(b[0].len(), |j: int| dot_upto(a[i], b, j, b.len() as int) as i32),
    )
}

/// Whether `a` can be multiplied by `b`: `a` has as many columns as `b`
/// has rows, and every product and every sum on the way is a value of
/// `i32`.
pub open spec fn multipliable(a: Rows<i32>, b: Rows<i32>) -> bool {
    &&& a[0].len() == b.len()
    &&& forall|i: int, j: int, n: int|
        0 <= i < a.len() && 0 <= j < b[0].len() && 0 <= n < b.len() ==> fits(a[i][n] * b[n][j])
            && fits(#[trigger] dot_upto(a[i], b, j, n + 1))
}

/// `rows` without the first row and without the column `column`.
pub open spec fn minor(rows: Rows<i32>, column: int) -> Rows<i32> {
    Seq::new((rows.len() - 1) as nat, |i: int| rows[i + 1].remove(column))
}

/// 1 for an even number, -1 for an odd one.
pub open spec fn sign(column: int) -> int {
    if column % 2 == 0 {
        1
    } else {
        -1
    }
}

/// The determinant of a square matrix with two rows or more, by expansion
/// along the first row.
pub open spec fn determinant(rows: Rows<i32>) -> int
    decreases rows.len(), rows.len() + 1,
{
    if rows.len() == 2 {
        rows[0][0] * rows[1][1] - rows[1][0] * rows[0][1]
    } else if rows.len() > 2 {
        expansion(rows, rows.len() as int)
    } else {
        0
    }
}

/// The part of the expansion along the first row that the first `n`
/// columns make up.
pub open spec fn expansion(rows: Rows<i32>, n: int) -> int
    decreases rows.len(), n,
{
    if n <= 0 || rows.len() <= 2 || n > rows.len() {
        0
    } else {
        expansion(rows, n - 1) + sign(n - 1) * (determinant(minor(rows, n - 1)) * rows[0][n - 1])
    }
}

/// Whether the determinant of `rows` can be worked out in `i32`: `rows`
/// is square with two rows or more, and every product and every sum on
/// the way is a value of `i32`.
pub open spec fn determinable(rows: Rows<i32>) -> bool
    decreases rows.len(), rows.len() + 1,
{
    &&& rows.len() >= 2
    &&& rows[0].len() == rows.len()
    &&& rectangular(rows)
    &&& if rows.len() == 2 {
        &&& fits(rows[0][0] * rows[1][1])
        &&& fits(rows[1][0] * rows[0][1])
        &&& fits(rows[0][0] * rows[1][1] - rows[1][0] * rows[0][1])
    } else {
        expandable(rows, rows.len() as int)
    }
}

/// Whether the first `n` columns can be expanded in `i32`.
pub open spec fn expandable(rows: Rows<i32>, n: int) -> bool
    decreases rows.len(), n,
{
    if n <= 0 || rows.len() <= 2 || n > rows.len() {
        true
    } else {
        &&& expandable(rows, n - 1)
        &&& determinable(minor(rows, n - 1))
        &&& fits(determinant(minor(rows, n - 1)) * rows[0][n - 1])
        &&& fits(expansion(rows, n))
    }
}

/// The rows of the identity matrix with `n` rows.
pub open spec fn identity_rows(n: int) -> Rows<i32> {
    Seq::new(n as nat, |i: int| Seq::new(n as nat, |j: int| if i == j { 1i32 } else { 0i32 }))
}

/// The rows of the matrix that scales by `x`, `y` and `z` along the axes.
pub open spec fn scale_rows(x: i32, y: i32, z: i32) -> Rows<i32> {
    seq![
        seq![x, 0i32, 0i32, 0i32],
        seq![0i32, y, 0i32, 0i32],
        seq![0i32, 0i32, z, 0i32],
        seq![0i32, 0i32, 0i32, 1i32],
    ]
}

/// Matrices that have a determinant.
pub trait Determinant<T> {
    /// Whether the determinant can be worked out.
    spec fn has_det(&self) -> bool;

    /// The determinant.
    spec fn det_value(&self) -> T;

    fn det(&self) -> (res: T)
        requires
            self.has_det(),
        ensures
            res == self.det_value(),
    ;
}

/// Matrices that have an identity.
pub trait IdentityMatrix<T> {
    /// The rows of the identity with `num_rows` rows.
    spec fn identity_of(num_rows: int) -> Rows<T>;

    /// The number of rows of the matrix.
    spec fn row_count(&self) -> int;

    /// The identity for a given matrix.
    fn identity(&self) -> (res: Matrix<T>)
        ensures
            res@ == Self::identity_of(self.row_count()),
    ;

    /// The identity with `num_rows` rows, of which there must be one.
    fn generate_identity(num_rows: usize) -> (res: Matrix<T>)
        requires
            num_rows > 0,
        ensures
            res@ == Self::identity_of(num_rows as int),
    ;
}

/// Matrices that can be turned about the third axis.
pub trait RotationMatrix<T> {
    fn rotate_z(&self, deg: T) -> Matrix<T>;
}

/// Matrices that scale along the axes.
pub trait ScaleMatrix<T> {
    /// The rows of the matrix that scales by `x`, `y` and `z`.
    spec fn scaling(x: T, y: T, z: T) -> Rows<T>;

    fn generate_scale_matrix(x: T, y: T, z: T) -> (res: Matrix<T>)
        ensures
            res@ == Self::scaling(x, y, z),
    ;
}

impl core::ops::Mul<i32> for Matrix<i32> {
    type Output = Matrix<i32>;

    /// Every item multiplied by `rhs`.
    fn mul(self, rhs: i32) -> (res: Matrix<i32>)
        ensures
            res@ == scaled(self@, rhs),
    {
        proof {
            use_type_invariant(&self);
        }
        let ghost rows = self@;
        let mut new_matrix: Vec<Vec<i32>> = Vec::new();
        let mut i: usize = 0;
        while i < self.get_num_rows()
            invariant
                0 <= i <= rows.len(),
                rows == self@,
                rows.len() > 0,
                rectangular(rows),
                scalable(rows, rhs),
                new_matrix@.len() == i,
                forall|r: int|
                    0 <= r < i ==> (#[trigger] new_matrix@[r])@ == scaled(rows, rhs)[r],
            decreases rows.len() - i,
        {
            let row = self.row(i);
            let mut new_vec: Vec<i32> = Vec::new();
            let mut j: usize = 0;
            while j < row.len()
                invariant
                    0 <= j <= row.len(),
                    i < rows.len(),
                    row@ == rows[i as int],
                    scalable(rows, rhs),
                    new_vec@.len() == j,
                    forall|c: int| 0 <= c < j ==> #[trigger] new_vec@[c] == (row@[c] * rhs) as i32,
                decreases row.len() - j,
            {
                assert(fits(rows[i as int][j as int] * rhs));
                new_vec.push(row[j] * rhs);
                j = j + 1;
            }
            assert(new_vec@ =~= scaled(rows, rhs)[i as int]);
            new_matrix.push(new_vec);
            i = i + 1;
        }
        proof {
            assert(rows_of(new_matrix) =~= scaled(rows, rhs));
            assert forall|r: int| 0 <= r < rows_of(new_matrix).len() implies (
            #[trigger] rows_of(new_matrix)[r]).len() == rows_of(new_matrix)[0].len() by {
                assert(rows[r].len() == rows[0].len());
            }
        }
        Matrix::new(new_matrix)
    }
}

impl vstd::std_specs::ops::MulSpecImpl<i32> for Matrix<i32> {
    open spec fn obeys_mul_spec() -> bool {
        false
    }

    open spec fn mul_req(self, rhs: i32) -> bool {
        scalable(self@, rhs)
    }

    open spec fn mul_spec(self, rhs: i32) -> Matrix<i32> {
        self
    }
}

impl core::ops::Add<Matrix<i32>> for Matrix<i32> {
    type Output = Matrix<i32>;

    /// The sums of the items in the same places.
    fn add(self, rhs: Matrix<i32>) -> (res: Matrix<i32>)
        ensures
            res@ == summed(self@, rhs@),
    {
        proof {
            use_type_invariant(&self);
            use_type_invariant(&rhs);
        }
        let ghost a = self@;
        let ghost b = rhs@;
        let mut new_matrix: Vec<Vec<i32>> = Vec::new();
        let mut i: usize = 0;
        while i < self.len()
            invariant
                0 <= i <= a.len(),
                a == self@,
                b == rhs@,
                a.len() > 0,
                rectangular(a),
                rectangular(b),
                same_shape(a, b),
                summable(a, b),
                new_matrix@.len() == i,
                forall|r: int| 0 <= r < i ==> (#[trigger] new_matrix@[r])@ == summed(a, b)[r],
            decreases a.len() - i,
        {
            let row = self.row(i);
            let other = rhs.row(i);
            let mut new_vec: Vec<i32> = Vec::new();
            let mut j: usize = 0;
            while j < row.len()
                invariant
                    0 <= j <= row.len(),
                    i < a.len(),
                    row@ == a[i as int],
                    other@ == b[i as int],
                    row@.len() == other@.len(),
                    summable(a, b),
                    new_vec@.len() == j,
                    forall|c: int|
                        0 <= c < j ==> #[trigger] new_vec@[c] == (row@[c] + other@[c]) as i32,
                decreases row.len() - j,
            {
                assert(fits(a[i as int][j as int] + b[i as int][j as int]));
                new_vec.push(row[j] + other[j]);
                j = j + 1;
            }
            assert(new_vec@ =~= summed(a, b)[i as int]);
            new_matrix.push(new_vec);
            i = i + 1;
        }
        proof {
            assert(rows_of(new_matrix) =~= summed(a, b));
            assert forall|r: int| 0 <= r < rows_of(new_matrix).len() implies (
            #[trigger] rows_of(new_matrix)[r]).len() == rows_of(new_matrix)[0].len() by {
                assert(a[r].len() == a[0].len());
            }
        }
        Matrix::new(new_matrix)
    }
}

impl vstd::std_specs::ops::AddSpecImpl<Matrix<i32>> for Matrix<i32> {
    open spec fn obeys_add_spec() -> bool {
        false
    }

    open spec fn add_req(self, rhs: Matrix<i32>) -> bool {
        same_shape(self@, rhs@) && summable(self@, rhs@)
    }

    open spec fn add_spec(self, rhs: Matrix<i32>) -> Matrix<i32> {
        self
    }
}

impl core::ops::Mul<Matrix<i32>> for Matrix<i32> {
    type Output = Matrix<i32>;

    /// The product, row by column.
    fn mul(self, rhs: Matrix<i32>) -> (res: Matrix<i32>)
        ensures
            res@ == multiplied(self@, rhs@),
    {
        proof {
            use_type_invariant(&self);
            use_type_invariant(&rhs);
        }
        let ghost a = self@;
        let ghost b = rhs@;
        let columns = rhs.get_num_columns();
        let inner = rhs.get_num_rows();
        let mut new_matrix: Vec<Vec<i32>> = Vec::new();
        let mut row_i: usize = 0;
        while row_i < self.get_num_rows()
            invariant
                0 <= row_i <= a.len(),
                a == self@,
                b == rhs@,
                a.len() > 0,
                columns == b[0].len(),
                inner == b.len(),
                multipliable(a, b),
                new_matrix@.len() == row_i,
                forall|r: int|
                    0 <= r < row_i ==> (#[trigger] new_matrix@[r])@ == multiplied(a, b)[r],
            decreases a.len() - row_i,
        {
            let mut row: Vec<i32> = Vec::new();
            let mut col_i: usize = 0;
            while col_i < columns
                invariant
                    0 <= col_i <= columns,
                    row_i < a.len(),
                    a == self@,
                    b == rhs@,
                    columns == b[0].len(),
                    inner == b.len(),
                    multipliable(a, b),
                    row@.len() == col_i,
                    forall|c: int|
                        0 <= c < col_i ==> #[trigger] row@[c] == dot_upto(
                            a[row_i as int],
                            b,
                            c,
                            b.len() as int,
                        ) as i32,
                decreases columns - col_i,
            {
                let mut idx_sum: i32 = 0;
                let mut rhs_row_i: usize = 0;
                while rhs_row_i < inner
                    invariant
                        0 <= rhs_row_i <= inner,
                        row_i < a.len(),
                        col_i < columns,
                        a == self@,
                        b == rhs@,
                        columns == b[0].len(),
                        inner == b.len(),
                        multipliable(a, b),
                        idx_sum == dot_upto(a[row_i as int], b, col_i as int, rhs_row_i as int),
                    decreases inner - rhs_row_i,
                {
                    let left = self.get(row_i, rhs_row_i);
                    let right = rhs.get(rhs_row_i, col_i);
                    proof {
                        let next = dot_upto(a[row_i as int], b, col_i as int, rhs_row_i + 1);
                        assert(fits(next) && fits(
                            a[row_i as int][rhs_row_i as int] * b[rhs_row_i as int][col_i as int],
                        ));
                    }
                    idx_sum = idx_sum + left * right;
                    rhs_row_i = rhs_row_i + 1;
                }
                row.push(idx_sum);
                col_i = col_i + 1;
            }
            assert(row@ =~= multiplied(a, b)[row_i as int]);
            new_matrix.push(row);
            row_i = row_i + 1;
        }
        proof {
            assert(rows_of(new_matrix) =~= multiplied(a, b));
        }
        Matrix::new(new_matrix)
    }
}

impl vstd::std_specs::ops::MulSpecImpl<Matrix<i32>> for Matrix<i32> {
    open spec fn obeys_mul_spec() -> bool {
        false
    }

    open spec fn mul_req(self, rhs: Matrix<i32>) -> bool {
        multipliable(self@, rhs@)
    }

    open spec fn mul_spec(self, rhs: Matrix<i32>) -> Matrix<i32> {
        self
    }
}

impl PartialEq for Matrix<i32> {
    /// Whether the two matrices have the same items in the same places.
    fn eq(&self, other: &Self) -> (res: bool) {
        proof {
            use_type_invariant(self);
            use_type_invariant(other);
        }
        if self.get_num_columns() != other.get_num_columns() {
            assert(self@[0].len() != other@[0].len());
            return false;
        }
        if self.get_num_rows() != other.get_num_rows() {
            return false;
        }
        let mut vec_i: usize = 0;
        while vec_i < self.len()
            invariant
                0 <= vec_i <= self@.len(),
                self@.len() == other@.len(),
                self@[0].len() == other@[0].len(),
                forall|r: int| 0 <= r < vec_i ==> #[trigger] self@[r] == other@[r],
            decreases self@.len() - vec_i,
        {
            let row = self.row(vec_i);
            let other_row = other.row(vec_i);
            let mut scalar_i: usize = 0;
            while scalar_i < row.len()
                invariant
                    0 <= scalar_i <= row.len(),
                    vec_i < self@.len(),
                    row@ == self@[vec_i as int],
                    other_row@ == other@[vec_i as int],
                    row@.len() == other_row@.len(),
                    forall|c: int| 0 <= c < scalar_i ==> #[trigger] row@[c] == other_row@[c],
                decreases row.len() - scalar_i,
            {
                if row[scalar_i] != other_row[scalar_i] {
                    assert(self@[vec_i as int][scalar_i as int] != other@[vec_i as int][scalar_i as int]);
                    return false;
                }
                scalar_i = scalar_i + 1;
            }
            assert(row@ =~= other_row@);
            vec_i = vec_i + 1;
        }
        assert(self@ =~= other@);
        true
    }
}

impl vstd::std_specs::cmp::PartialEqSpecImpl for Matrix<i32> {
    open spec fn obeys_eq_spec() -> bool {
        true
    }

    open spec fn eq_spec(&self, other: &Self) -> bool {
        self@ == other@
    }
}

/// The rows of `matrix` from the second on, each without the item in the
/// column `column`.
fn minor_of(matrix: &Matrix<i32>, column: usize) -> (res: Matrix<i32>)
    requires
        matrix@.len() > 2,
        matrix@[0].len() == matrix@.len(),
        rectangular(matrix@),
        column < matrix@.len(),
    ensures
        res@ == minor(matrix@, column as int),
{
    let rows = matrix.get_num_rows();
    let mut smaller_mat: Vec<Vec<i32>> = Vec::new();
    let mut row_i: usize = 1;
    while row_i < rows
        invariant
            1 <= row_i <= rows,
            rows == matrix@.len(),
            matrix@[0].len() == matrix@.len(),
            rectangular(matrix@),
            column < matrix@.len(),
            smaller_mat@.len() == row_i - 1,
            forall|r: int|
                0 <= r < row_i - 1 ==> (#[trigger] smaller_mat@[r])@ == matrix@[r + 1].remove(
                    column as int,
                ),
        decreases rows - row_i,
    {
        let row = matrix.row(row_i);
        let mut new_row: Vec<i32> = Vec::new();
        let mut item_i: usize = 0;
        while item_i < row.len()
            invariant
                0 <= item_i <= row.len(),
                column < row.len(),
                new_row@ == if item_i <= column {
                    row@.take(item_i as int)
                } else {
                    row@.take(item_i as int).remove(column as int)
                },
            decreases row.len() - item_i,
        {
            if item_i != column {
                new_row.push(row[item_i]);
            }
            proof {
                let before = row@.take(item_i as int);
                let after = row@.take(item_i + 1);
                if item_i < column {
                    assert(after =~= before.push(row@[item_i as int]));
                } else if item_i == column {
                    assert(after.remove(column as int) =~= before);
                } else {
                    assert(after.remove(column as int) =~= before.remove(column as int).push(
                        row@[item_i as int],
                    ));
                }
            }
            item_i = item_i + 1;
        }
        proof {
            assert(row@.take(item_i as int) =~= row@);
        }
        smaller_mat.push(new_row);
        row_i = row_i + 1;
    }
    proof {
        assert(rows_of(smaller_mat) =~= minor(matrix@, column as int));
        assert forall|r: int| 0 <= r < rows_of(smaller_mat).len() implies (
        #[trigger] rows_of(smaller_mat)[r]).len() == rows_of(smaller_mat)[0].len() by {
            assert(matrix@[r + 1].len() == matrix@[0].len());
            assert(matrix@[1].len() == matrix@[0].len());
        }
    }
    Matrix::new(smaller_mat)
}

/// The determinant of `matrix`, by expansion along the first row.
fn det_of(matrix: &Matrix<i32>) -> (res: i32)
    requires
        determinable(matrix@),
    ensures
        res == determinant(matrix@),
    decreases matrix@.len(),
{
    let size = matrix.get_num_columns();
    if size == 2 {
        return matrix.get(0, 0) * matrix.get(1, 1) - matrix.get(1, 0) * matrix.get(0, 1);
    }
    let mut determinant: i32 = 0;
    let mut col_i: usize = 0;
    while col_i < size
        invariant
            0 <= col_i <= size,
            size == matrix@.len(),
            size > 2,
            determinable(matrix@),
            expandable(matrix@, size as int),
            determinant == expansion(matrix@, col_i as int),
        decreases size - col_i,
    {
        proof {
            lemma_expandable_upto(matrix@, col_i + 1, size as int);
        }
        let scalar = matrix.get(0, col_i);
        let smaller = minor_of(matrix, col_i);
        let block_determinant = det_of(&smaller) * scalar;
        if col_i % 2 == 0 {
            determinant = determinant + block_determinant;
        } else {
            determinant = determinant - block_determinant;
        }
        col_i = col_i + 1;
    }
    determinant
}

/// Columns that can be expanded up to one can be expanded up to any
/// before it.
proof fn lemma_expandable_upto(rows: Rows<i32>, k: int, n: int)
    requires
        0 <= k <= n <= rows.len(),
        expandable(rows, n),
    ensures
        expandable(rows, k),
    decreases n - k,
{
    if k < n {
        lemma_expandable_upto(rows, k, n - 1);
    }
}

impl Determinant<i32> for Matrix<i32> {
    open spec fn has_det(&self) -> bool {
        determinable(self@)
    }

    open spec fn det_value(&self) -> i32 {
        determinant(self@) as i32
    }

    /// The determinant, by expansion along the first row.
    fn det(&self) -> (res: i32)
        ensures
            res == determinant(self@),
    {
        det_of(self)
    }
}

impl IdentityMatrix<i32> for Matrix<i32> {
    open spec fn identity_of(num_rows: int) -> Rows<i32> {
        identity_rows(num_rows)
    }

    open spec fn row_count(&self) -> int {
        self@.len() as int
    }

    fn identity(&self) -> (res: Matrix<i32>) {
        Matrix::generate_identity(self.get_num_rows())
    }

    fn generate_identity(num_rows: usize) -> (res: Matrix<i32>) {
        let mut new_matrix: Vec<Vec<i32>> = Vec::new();
        let mut i: usize = 0;
        while i < num_rows
            invariant
                0 <= i <= num_rows,
                new_matrix@.len() == i,
                forall|r: int|
                    0 <= r < i ==> (#[trigger] new_matrix@[r])@ == identity_rows(num_rows as int)[r],
            decreases num_rows - i,
        {
            let mut new_row: Vec<i32> = Vec::new();
            let mut j: usize = 0;
            while j < num_rows
                invariant
                    0 <= j <= num_rows,
                    i < num_rows,
                    new_row@.len() == j,
                    forall|c: int|
                        0 <= c < j ==> #[trigger] new_row@[c] == if i == c {
                            1i32
                        } else {
                            0i32
                        },
                decreases num_rows - j,
            {
                if i == j {
                    new_row.push(1);
                } else {
                    new_row.push(0);
                }
                j = j + 1;
            }
            assert(new_row@ =~= identity_rows(num_rows as int)[i as int]);
            new_matrix.push(new_row);
            i = i + 1;
        }
        proof {
            assert(rows_of(new_matrix) =~= identity_rows(num_rows as int));
        }
        Matrix::new(new_matrix)
    }
}

impl ScaleMatrix<i32> for Matrix<i32> {
    open spec fn scaling(x: i32, y: i32, z: i32) -> Rows<i32> {
        scale_rows(x, y, z)
    }

    fn generate_scale_matrix(x: i32, y: i32, z: i32) -> (res: Matrix<i32>) {
        let rows: Vec<Vec<i32>> = vec![
            vec![x, 0, 0, 0],
            vec![0, y, 0, 0],
            vec![0, 0, z, 0],
            vec![0, 0, 0, 1],
        ];
        proof {
            assert(rows_of(rows) =~~= scale_rows(x, y, z));
        }
        Matrix::new(rows)
    }
}

} // verus!
