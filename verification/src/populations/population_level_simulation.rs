//! Population-level simulation: a population is a vector of counts, one per
//! life stage, and a year is one multiplication by a matrix of survival and
//! recruitment rates. Genetics are not modelled.

use crate::interface::table_of;
use crate::layout::{laid_out, layout_table};
use crate::populations::projection::{
    accumulates, can_add, is_product, is_square, is_sum, is_trajectory, latest,
    lemma_terms_defined_before, projection_defined, projects, terms_defined, trajectory_defined,
    Scalar,
};
use vstd::prelude::*;

verus! {

/// Why rows do not make a population matrix.
#[derive(Debug, Clone, Copy, PartialEq, Eq, Structural)]
pub enum ShapeError {
    /// There are no rows.
    Empty,
    /// The number of rows differs from the length of the first row.
    NotSquare,
    /// A row differs in length from the row before it.
    RaggedRows,
}

/// Why a vector cannot be projected by a matrix.
#[derive(Debug, Clone, Copy, PartialEq, Eq, Structural)]
pub enum DimensionError {
    /// The vector and the matrix count different numbers of life stages.
    Mismatch,
}

/// The answer to a request for stochastic projection, which does not exist.
#[derive(Debug, Clone, Copy, PartialEq, Eq, Structural)]
pub struct UnsupportedMode;

impl ShapeError {
    /// The sentence to show a user.
    pub fn message(&self) -> (text: &'static str)
        ensures
            text@ == shape_sentence(*self)@,
    {
        match self {
            ShapeError::Empty => "A population matrix needs at least one sub-vector.",
            ShapeError::NotSquare => {
                "Number of items in lifestages must match number of inputted sub-vectors."
            },
            ShapeError::RaggedRows => {
                "All sub-vectors must be of matching lengths to construct a population matrix."
            },
        }
    }
}

/// The sentence that tells a user of a fault in the shape of a matrix.
pub open spec fn shape_sentence(fault: ShapeError) -> &'static str {
    match fault {
        ShapeError::Empty => "A population matrix needs at least one sub-vector.",
        ShapeError::NotSquare => {
            "Number of items in lifestages must match number of inputted sub-vectors."
        },
        ShapeError::RaggedRows => {
            "All sub-vectors must be of matching lengths to construct a population matrix."
        },
    }
}

impl DimensionError {
    /// The sentence to show a user.
    pub fn message(&self) -> (text: &'static str)
        ensures
            text@
                == "the length of inputted population matrix and population vector do not match."@,
    {
        "the length of inputted population matrix and population vector do not match."
    }
}

impl UnsupportedMode {
    /// The sentence to show a user.
    pub fn message(&self) -> (text: &'static str)
        ensures
            text@ == "Stochastic projection is not implemented."@,
    {
        "Stochastic projection is not implemented."
    }
}

/// The rows of a nested vector, as sequences.
pub open spec fn rows_of<T>(rows: Seq<Vec<T>>) -> Seq<Seq<T>> {
    Seq::new(rows.len(), |i: int| rows[i]@)
}

/// A population as a vector of counts: entry `i` is the number of
/// individuals in life stage `i`. A population of 40 hatchlings, 20
/// juveniles and 100 adults is `[40, 20, 100]`. Counts need not be whole:
/// a projection seldom returns whole numbers.
pub struct PopulationVector<T> {
    vector: Vec<T>,
    lifestage_count: usize,
}

impl<T> View for PopulationVector<T> {
    type V = Seq<T>;

    closed spec fn view(&self) -> Seq<T> {
        self.vector@
    }
}

impl<T> PopulationVector<T> {
    #[verifier::type_invariant]
    spec fn counted(&self) -> bool {
        self.lifestage_count == self.vector.len()
    }

    /// A population with the given counts, in stage order. Every vector is
    /// accepted, and no count is looked at.
    pub fn new(vector: Vec<T>) -> (population: PopulationVector<T>)
        ensures
            population@ == vector@,
    {
        PopulationVector { lifestage_count: vector.len(), vector: vector }
    }

    /// The count of life stage `index`, the first stage being 0, or `None`
    /// where the population has no such stage.
    pub fn get_value_at_index(&self, index: u32) -> (value: Option<&T>)
        ensures
            index < self@.len() ==> value == Some(&self@[index as int]),
            index >= self@.len() ==> value is None,
    {
        let i = index as usize;
        if i < self.vector.len() {
            Some(&self.vector[i])
        } else {
            None
        }
    }

    /// All counts, in stage order.
    pub fn get_vector(&self) -> (vector: &Vec<T>)
        ensures
            vector@ == self@,
    {
        &self.vector
    }

    /// The number of life stages, which is the number of counts.
    pub fn get_lifestage_count(&self) -> (count: usize)
        ensures
            count == self@.len(),
    {
        proof {
            use_type_invariant(self);
        }
        self.lifestage_count
    }
}

impl<T: Copy> Clone for PopulationVector<T> {
    /// A population with the same counts.
    fn clone(&self) -> (copy: Self)
        ensures
            copy@ == self@,
    {
        let mut vector: Vec<T> = Vec::new();
        let mut i: usize = 0;
        while i < self.vector.len()
            invariant
                i <= self.vector.len(),
                vector@ == self.vector@.take(i as int),
            decreases self.vector.len() - i,
        {
            vector.push(self.vector[i]);
            i += 1;
            assert(vector@ =~= self.vector@.take(i as int));
        }
        assert(vector@ =~= self.vector@);
        PopulationVector::new(vector)
    }
}

/// The first fault that `build` finds in `rows`, or `None` where they make
/// a population matrix: at least one row, as many rows as the first row has
/// entries, and every row as long as the row before it.
pub open spec fn shape_fault<T>(rows: Seq<Seq<T>>) -> Option<ShapeError> {
    if rows.len() == 0 {
        Some(ShapeError::Empty)
    } else if rows.len() != rows[0].len() {
        Some(ShapeError::NotSquare)
    } else if exists|i: int|
        1 <= i < rows.len() && #[trigger] rows[i].len() != rows[i - 1].len() {
        Some(ShapeError::RaggedRows)
    } else {
        None
    }
}

/// The yearly rates at which the life stages of an organism survive, grow
/// and reproduce, as a square matrix. Row `i` belongs to the stage that is
/// recruited into, column `j` to the stage that it is recruited from:
/// entry `[i][j]` is the number of individuals in stage `i` that each
/// individual of stage `j` gives a year later. The first row is as a rule
/// that of the newborns or seedlings.
///
/// With four stages a matrix could be
///
/// ```text
/// [0  ][0  ][0.1][0.2 ]
/// [0.6][0  ][0  ][0   ]
/// [0  ][0.8][0  ][0   ]
/// [0  ][0  ][0.8][0.94]
/// ```
///
/// Only the shape is checked. Survival rates lie between 0 and 1, but
/// recruitment rates may exceed 1, so no range is imposed.
pub struct PopulationMatrix<T> {
    matrix: Vec<Vec<T>>,
    lifestage_count: usize,
}

impl<T> View for PopulationMatrix<T> {
    type V = Seq<Seq<T>>;

    closed spec fn view(&self) -> Seq<Seq<T>> {
        rows_of(self.matrix@)
    }
}

impl<T> PopulationMatrix<T> {
    #[verifier::type_invariant]
    spec fn shaped(&self) -> bool {
        &&& self.lifestage_count == self.matrix.len()
        &&& self.lifestage_count > 0
        &&& forall|i: int|
            0 <= i < self.matrix.len() ==> (#[trigger] self.matrix[i]).len() == self.matrix.len()
    }

    /// Makes a population matrix of `input`, one row per inner vector, if
    /// its shape allows it. The faults are looked for in the order of
    /// `shape_fault`, and the first one found is returned. The entries are
    /// not looked at.
    pub fn build(input: Vec<Vec<T>>) -> (built: Result<PopulationMatrix<T>, ShapeError>)
        ensures
            match built {
                Ok(matrix) => shape_fault(rows_of(input@)) is None && matrix@ == rows_of(input@),
                Err(fault) => shape_fault(rows_of(input@)) == Some(fault),
            },
    {
        let ghost rows = rows_of(input@);
        if input.len() == 0 {
            return Err(ShapeError::Empty);
        }
        if input.len() != input[0].len() {
            return Err(ShapeError::NotSquare);
        }
        let mut count: usize = 1;
        while count < input.len()
            invariant
                1 <= count <= input.len(),
                rows == rows_of(input@),
                forall|i: int| 1 <= i < count ==> #[trigger] rows[i].len() == rows[i - 1].len(),
                forall|i: int| 0 <= i < count ==> (#[trigger] input@[i]).len() == input.len(),
            decreases input.len() - count,
        {
            if input[count].len() != input[count - 1].len() {
                assert(rows[count as int].len() != rows[count - 1].len());
                return Err(ShapeError::RaggedRows);
            }
            count += 1;
        }
        Ok(PopulationMatrix { lifestage_count: input.len(), matrix: input })
    }

    /// The number of life stages: the number of rows, and of columns.
    pub fn get_lifestage_count(&self) -> (count: usize)
        ensures
            count == self@.len(),
            count > 0,
    {
        proof {
            use_type_invariant(self);
        }
        self.lifestage_count
    }

    /// All rates, row by row.
    pub fn get_matrix(&self) -> (matrix: &Vec<Vec<T>>)
        ensures
            rows_of(matrix@) == self@,
            is_square(self@),
            self@.len() > 0,
    {
        proof {
            use_type_invariant(self);
        }
        &self.matrix
    }
}

impl<T: Scalar> PopulationMatrix<T> {
    /// Projects `vector` one year ahead: stage `i` of the new population is
    /// the sum over all stages `j` of entry `[i][j]` times the old count of
    /// stage `j`, the terms added from left to right onto the scalar's
    /// default value.
    ///
    /// ```text
    /// [0  , 0  , 0.1 ]   [ 40]   [ 10]
    /// [0.6, 0.8, 0   ] x [ 20] = [ 40]
    /// [0  , 0.8, 0.95]   [100]   [111]
    /// ```
    ///
    /// A vector with another number of stages than the matrix is refused,
    /// before any entry is read. Neither the matrix nor the vector changes.
    pub fn project_vector(&self, vector: &PopulationVector<T>) -> (projected: Result<
        PopulationVector<T>,
        DimensionError,
    >)
        requires
            self@.len() == vector@.len() ==> projection_defined(self@, vector@),
        ensures
            match projected {
                Ok(next) => self@.len() == vector@.len() && projects(self@, vector@, next@),
                Err(fault) => self@.len() != vector@.len() && fault == DimensionError::Mismatch,
            },
    {
        proof {
            use_type_invariant(self);
        }
        if self.lifestage_count != vector.get_lifestage_count() {
            return Err(DimensionError::Mismatch);
        }
        let counts = vector.get_vector();
        let mut new_population_vector: Vec<T> = Vec::new();
        let mut row: usize = 0;
        while row < self.matrix.len()
            invariant
                row <= self.matrix.len(),
                self.matrix.len() == counts.len(),
                counts@ == vector@,
                self@ == rows_of(self.matrix@),
                forall|i: int|
                    0 <= i < self.matrix.len() ==> (#[trigger] self.matrix[i]).len()
                        == self.matrix.len(),
                projection_defined(self@, vector@),
                new_population_vector.len() == row,
                forall|i: int|
                    0 <= i < row ==> accumulates(
                        self@[i],
                        vector@,
                        self@[i].len(),
                        #[trigger] new_population_vector[i],
                    ),
            decreases self.matrix.len() - row,
        {
            let lifestage = &self.matrix[row];
            assert(lifestage@ == self@[row as int]);
            assert(terms_defined(self@[row as int], vector@, self@[row as int].len()));
            let storage = dot_product(lifestage, counts);
            new_population_vector.push(storage);
            row += 1;
        }
        Ok(PopulationVector::new(new_population_vector))
    }
}

/// The sum of the products `rates[j] * counts[j]`, added from left to right
/// onto the scalar's default value.
fn dot_product<T: Scalar>(rates: &Vec<T>, counts: &Vec<T>) -> (total: T)
    requires
        rates.len() == counts.len(),
        terms_defined(rates@, counts@, rates@.len()),
    ensures
        accumulates(rates@, counts@, rates@.len(), total),
{
    let mut storage: T = T::default();
    let mut column: usize = 0;
    while column < rates.len()
        invariant
            column <= rates.len(),
            rates.len() == counts.len(),
            terms_defined(rates@, counts@, rates@.len()),
            accumulates(rates@, counts@, column as nat, storage),
        decreases rates.len() - column,
    {
        proof {
            lemma_terms_defined_before(rates@, counts@, rates@.len(), (column + 1) as nat);
        }
        let term = rates[column] * counts[column];
        assert(is_product(rates@[column as int], counts@[column as int], term));
        assert(can_add(storage, term));
        let sum = storage + term;
        assert(is_sum(storage, term, sum));
        storage = sum;
        column += 1;
    }
    storage
}

/// The populations of a vector of populations, as sequences of counts.
pub open spec fn series_of<T>(steps: Seq<PopulationVector<T>>) -> Seq<Seq<T>> {
    Seq::new(steps.len(), |k: int| steps[k]@)
}

/// A population together with the matrix that projects it: what a
/// deterministic analysis starts from. The two count the same number of
/// life stages, which is checked once, when they are put together.
pub struct PvaDeterministicPopulation<T> {
    initial_population: PopulationVector<T>,
    projection_matrix: PopulationMatrix<T>,
}

impl<T> PvaDeterministicPopulation<T> {
    #[verifier::type_invariant]
    spec fn matched(&self) -> bool {
        self.initial_population@.len() == self.projection_matrix@.len()
    }

    /// The counts that the analysis starts from.
    pub closed spec fn start(&self) -> Seq<T> {
        self.initial_population@
    }

    /// The rates that the analysis projects by.
    pub closed spec fn rates(&self) -> Seq<Seq<T>> {
        self.projection_matrix@
    }

    /// Puts a population and a matrix together, if they count the same
    /// number of life stages.
    pub fn build(init_pop: PopulationVector<T>, matrix: PopulationMatrix<T>) -> (built: Result<
        PvaDeterministicPopulation<T>,
        DimensionError,
    >)
        ensures
            match built {
                Ok(population) => {
                    &&& init_pop@.len() == matrix@.len()
                    &&& population.start() == init_pop@
                    &&& population.rates() == matrix@
                },
                Err(fault) => init_pop@.len() != matrix@.len() && fault == DimensionError::Mismatch,
            },
    {
        let expected_lifestage_length = init_pop.get_lifestage_count();
        if matrix.get_lifestage_count() != expected_lifestage_length {
            return Err(DimensionError::Mismatch);
        }
        Ok(PvaDeterministicPopulation { initial_population: init_pop, projection_matrix: matrix })
    }
}

impl<T: Scalar> PvaDeterministicPopulation<T> {
    /// Projects the population `iterations` years ahead and returns the
    /// population after each year, the first year first. The starting
    /// population is not among them, so no iterations give no populations.
    /// Each year is projected from the year before it, by the same matrix.
    pub fn deterministic_projection(&self, iterations: u32) -> (output: PvaDeterministicOutput<T>)
        requires
            trajectory_defined(self.rates(), self.start(), iterations as nat),
        ensures
            output@.len() == iterations,
            is_trajectory(self.rates(), self.start(), output@),
    {
        proof {
            use_type_invariant(self);
        }
        let mut active_vector = self.initial_population.clone();
        let mut result: Vec<PopulationVector<T>> = Vec::new();
        let mut year: u32 = 0;
        while year < iterations
            invariant
                year <= iterations,
                result.len() == year,
                self.start() == self.initial_population@,
                self.rates() == self.projection_matrix@,
                trajectory_defined(self.rates(), self.start(), iterations as nat),
                is_trajectory(self.rates(), self.start(), series_of(result@)),
                active_vector@ == latest(self.start(), series_of(result@)),
                active_vector@.len() == self.rates().len(),
            decreases iterations - year,
        {
            let ghost before = series_of(result@);
            active_vector = self.projection_matrix.project_vector(&active_vector).unwrap();
            result.push(active_vector.clone());
            year += 1;
            proof {
                let after = series_of(result@);
                assert(after.take(year - 1) =~= before);
                assert forall|k: int| 0 <= k < after.len() implies projects(
                    self.rates(),
                    latest(self.start(), after.take(k)),
                    #[trigger] after[k],
                ) by {
                    if k < year - 1 {
                        assert(after[k] == before[k]);
                        assert(after.take(k) =~= before.take(k));
                    }
                }
            }
        }
        PvaDeterministicOutput::new(result)
    }
}

/// What a deterministic analysis returns: the population after each year.
pub struct PvaDeterministicOutput<T> {
    result: Vec<PopulationVector<T>>,
}

impl<T> View for PvaDeterministicOutput<T> {
    type V = Seq<Seq<T>>;

    closed spec fn view(&self) -> Seq<Seq<T>> {
        series_of(self.result@)
    }
}

impl<T> PvaDeterministicOutput<T> {
    /// An output that holds the given populations, in their order.
    pub fn new(simulation_output: Vec<PopulationVector<T>>) -> (output: PvaDeterministicOutput<T>)
        ensures
            output@ == series_of(simulation_output@),
    {
        PvaDeterministicOutput { result: simulation_output }
    }

    /// The population after each year, the first year first.
    pub fn return_output(&self) -> (series: &Vec<PopulationVector<T>>)
        ensures
            series_of(series@) == self@,
    {
        &self.result
    }
}

/// `cells` holds, place by place, a text that the count at that place of
/// `series` may be written as.
pub open spec fn shows<T: core::fmt::Display>(
    series: Seq<Seq<T>>,
    cells: Seq<Vec<String>>,
) -> bool {
    &&& cells.len() == series.len()
    &&& forall|i: int| 0 <= i < series.len() ==> (#[trigger] cells[i]).len() == series[i].len()
    &&& forall|i: int, j: int|
        0 <= i < series.len() && 0 <= j < series[i].len()
            ==> vstd::string::to_string_from_display_ensures::<T>(
            &series[i][j],
            #[trigger] cells[i][j],
        )
}

impl<T: core::fmt::Display> PvaDeterministicOutput<T> {
    /// The output as text, ready to print: one line per year, the counts of
    /// a year in stage order with `", "` between them, each count written
    /// as the scalar displays it.
    pub fn format_output(&self) -> (text: String)
        ensures
            exists|cells: Seq<Vec<String>>|
                shows(self@, cells) && text@ == laid_out(#[trigger] table_of(cells)),
    {
        let mut cells: Vec<Vec<String>> = Vec::new();
        let mut i: usize = 0;
        while i < self.result.len()
            invariant
                i <= self.result.len(),
                self@ == series_of(self.result@),
                cells.len() == i,
                forall|k: int| 0 <= k < i ==> (#[trigger] cells[k]).len() == self@[k].len(),
                forall|k: int, j: int|
                    0 <= k < i && 0 <= j < self@[k].len()
                        ==> vstd::string::to_string_from_display_ensures::<T>(
                        &self@[k][j],
                        #[trigger] cells[k][j],
                    ),
            decreases self.result.len() - i,
        {
            let values = self.result[i].get_vector();
            let mut row: Vec<String> = Vec::new();
            let mut j: usize = 0;
            while j < values.len()
                invariant
                    j <= values.len(),
                    row.len() == j,
                    forall|c: int|
                        0 <= c < j ==> vstd::string::to_string_from_display_ensures::<T>(
                            &values[c],
                            #[trigger] row[c],
                        ),
                decreases values.len() - j,
            {
                row.push(values[j].to_string());
                j += 1;
            }
            cells.push(row);
            i += 1;
        }
        let text = layout_table(&cells);
        assert(shows(self@, cells@));
        text
    }
}

/// The result of an analysis in either mode. Only the deterministic mode
/// exists: a stochastic result holds nothing, and says so when it is asked.
pub enum PvaOutput<T> {
    Deterministic(PvaDeterministicOutput<T>),
    Stochastic,
}

impl<T> PvaOutput<T> {
    /// The population after each year of a deterministic analysis. A
    /// stochastic result is answered with `UnsupportedMode`.
    pub fn return_output(&self) -> (series: Result<&Vec<PopulationVector<T>>, UnsupportedMode>)
        ensures
            match *self {
                PvaOutput::Deterministic(output) => series matches Ok(populations) && series_of(
                    populations@,
                ) == output@,
                PvaOutput::Stochastic => series is Err,
            },
    {
        match self {
            PvaOutput::Deterministic(output) => Ok(output.return_output()),
            PvaOutput::Stochastic => Err(UnsupportedMode),
        }
    }
}

/// Checks that `initial_vector` and `matrix` count the same number of life
/// stages, then projects the population `iterations` years ahead and
/// returns the population after each year. Where the check fails nothing is
/// projected.
pub fn run_deterministic<T: Scalar>(
    initial_vector: PopulationVector<T>,
    matrix: PopulationMatrix<T>,
    iterations: u32,
) -> (run: Result<PvaDeterministicOutput<T>, DimensionError>)
    requires
        initial_vector@.len() == matrix@.len() ==> trajectory_defined(
            matrix@,
            initial_vector@,
            iterations as nat,
        ),
    ensures
        match run {
            Ok(output) => {
                &&& initial_vector@.len() == matrix@.len()
                &&& output@.len() == iterations
                &&& is_trajectory(matrix@, initial_vector@, output@)
            },
            Err(fault) => initial_vector@.len() != matrix@.len() && fault
                == DimensionError::Mismatch,
        },
{
    match PvaDeterministicPopulation::build(initial_vector, matrix) {
        Ok(population) => Ok(population.deterministic_projection(iterations)),
        Err(fault) => Err(fault),
    }
}

} // verus!
