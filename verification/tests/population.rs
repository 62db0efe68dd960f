use ecolysis_cmd::populations::population_level_simulation::{
    run_deterministic, DimensionError, PopulationMatrix, PopulationVector, PvaDeterministicOutput,
    PvaDeterministicPopulation, PvaOutput, ShapeError, UnsupportedMode,
};

fn turtle_rates() -> Vec<Vec<f64>> {
    vec![vec![0.0, 0.0, 0.1], vec![0.6, 0.8, 0.0], vec![0.0, 0.8, 0.95]]
}

fn to_one_decimal(values: &Vec<f64>) -> Vec<f64> {
    values.iter().map(|x| (x * 10.0).round() / 10.0).collect()
}

#[test]
fn matrix_multiplication() {
    let popvector = PopulationVector::new(vec![40.0, 20.0, 100.0]);
    let mut lifestage_recruit: Vec<Vec<f64>> = vec![vec![0.0, 0.0, 0.1]];
    lifestage_recruit.push(vec![0.6, 0.8, 0.0]);
    lifestage_recruit.push(vec![0.0, 0.8, 0.95]);
    let popmatrix =
        PopulationMatrix::build(lifestage_recruit).expect("Invalid population matrix.");
    let result: Vec<f64> = vec![10.0, 40.0, 111.0];
    assert_eq!(
        &result,
        &popmatrix
            .project_vector(&popvector)
            .unwrap()
            .get_vector()
            .into_iter()
            .map(|x| { (x * 10.0).round() / 10.0 })
            .collect::<Vec<_>>(),
    );
}

#[test]
fn matrix_invalid_matrix_length() {
    assert!(PopulationMatrix::build(vec![vec![0.5, 0.7, 0.3], vec![0.1, 0.11, 0.6]]).is_err());
}

#[test]
fn matrix_unmatched_lifestage_lengths() {
    assert!(PopulationMatrix::build(vec![
        vec![0.5, 0.7, 0.3],
        vec![0.1, 0.11, 0.6],
        vec![0.2, 0.91]
    ])
    .is_err());
}

#[test]
fn pva_simple_matrix_projection_test() {
    let population_vec = PopulationVector::new(vec![40.0, 20.0, 100.0]);
    let matrix = PopulationMatrix::build(vec![
        vec![0.0, 0.0, 0.1],
        vec![0.6, 0.8, 0.0],
        vec![0.0, 0.8, 0.95],
    ])
    .unwrap();
    let population = PvaDeterministicPopulation::build(population_vec, matrix).unwrap();
    let result = population.deterministic_projection(8);
    println!("{}", result.format_output());
    let correct_result = vec![24.9, 50.8, 273.5];
    let mut temp_vec: Vec<f64> = Vec::new();
    let mut clean_output: Vec<Vec<f64>> = Vec::new();
    for i in result.return_output() {
        for j in i.get_vector() {
            temp_vec.push(((j * 10.0 as f64).round()) / 10.0);
        }
        clean_output.push(temp_vec);
        temp_vec = vec![];
    }
    assert_eq!(correct_result, clean_output[clean_output.len() - 1])
}

#[test]
fn build_names_the_fault_in_the_shape() {
    let wide = PopulationMatrix::build(vec![vec![0.5, 0.7, 0.3], vec![0.1, 0.11, 0.6]]);
    assert_eq!(wide.err(), Some(ShapeError::NotSquare));
    let ragged = PopulationMatrix::build(vec![
        vec![0.5, 0.7, 0.3],
        vec![0.1, 0.11, 0.6],
        vec![0.2, 0.91],
    ]);
    assert_eq!(ragged.err(), Some(ShapeError::RaggedRows));
    let empty = PopulationMatrix::build(Vec::<Vec<f64>>::new());
    assert_eq!(empty.err(), Some(ShapeError::Empty));
}

#[test]
fn build_looks_for_faults_in_order() {
    // Three rows, the first of length two: not square, though ragged too.
    let both = PopulationMatrix::build(vec![vec![1.0, 2.0], vec![1.0], vec![1.0, 2.0, 3.0]]);
    assert_eq!(both.err(), Some(ShapeError::NotSquare));
    // Square by the first row, ragged only in the last.
    let last = PopulationMatrix::build(vec![vec![1.0, 2.0], vec![1.0, 2.0, 3.0]]);
    assert_eq!(last.err(), Some(ShapeError::RaggedRows));
    // A single empty row: one row, no columns.
    let hollow = PopulationMatrix::build(vec![Vec::<f64>::new()]);
    assert_eq!(hollow.err(), Some(ShapeError::NotSquare));
}

#[test]
fn build_keeps_the_rows() {
    let matrix = PopulationMatrix::build(turtle_rates()).unwrap();
    assert_eq!(matrix.get_matrix(), &turtle_rates());
    assert_eq!(matrix.get_lifestage_count(), 3);
    let single = PopulationMatrix::build(vec![vec![2.5]]).unwrap();
    assert_eq!(single.get_lifestage_count(), 1);
    assert_eq!(single.get_matrix(), &vec![vec![2.5]]);
}

#[test]
fn vector_reports_its_counts() {
    let population = PopulationVector::new(vec![40.0, 20.0, 100.0]);
    assert_eq!(population.get_lifestage_count(), 3);
    assert_eq!(population.get_vector(), &vec![40.0, 20.0, 100.0]);
    assert_eq!(population.get_value_at_index(0), Some(&40.0));
    assert_eq!(population.get_value_at_index(2), Some(&100.0));
    assert_eq!(population.get_value_at_index(3), None);
    assert_eq!(population.get_value_at_index(u32::MAX), None);
    let nobody = PopulationVector::new(Vec::<f64>::new());
    assert_eq!(nobody.get_lifestage_count(), 0);
    assert_eq!(nobody.get_value_at_index(0), None);
}

#[test]
fn vector_accepts_any_count() {
    let odd = PopulationVector::new(vec![-3.5, 0.0, f64::INFINITY]);
    assert_eq!(odd.get_value_at_index(0), Some(&-3.5));
    assert_eq!(odd.get_lifestage_count(), 3);
}

#[test]
fn stage_count_is_the_length_beyond_a_byte() {
    let population = PopulationVector::new(vec![1.0; 300]);
    assert_eq!(population.get_lifestage_count(), 300);
    assert_eq!(population.get_value_at_index(299), Some(&1.0));
    assert_eq!(population.get_value_at_index(300), None);
}

#[test]
fn vector_clone_has_the_same_counts() {
    let population = PopulationVector::new(vec![40.0, 20.0, 100.0]);
    let copy = population.clone();
    assert_eq!(copy.get_vector(), population.get_vector());
    assert_eq!(copy.get_lifestage_count(), 3);
}

#[test]
fn projection_refuses_another_stage_count() {
    let matrix = PopulationMatrix::build(vec![vec![0.5, 0.5], vec![0.25, 0.75]]).unwrap();
    let population = PopulationVector::new(vec![40.0, 20.0, 100.0]);
    assert_eq!(matrix.project_vector(&population).err(), Some(DimensionError::Mismatch));
    let short = PopulationVector::new(vec![40.0]);
    assert_eq!(matrix.project_vector(&short).err(), Some(DimensionError::Mismatch));
}

#[test]
fn one_step_of_the_worked_example() {
    let matrix = PopulationMatrix::build(turtle_rates()).unwrap();
    let population = PopulationVector::new(vec![40.0, 20.0, 100.0]);
    let next = matrix.project_vector(&population).unwrap();
    assert_eq!(next.get_lifestage_count(), 3);
    let expected = [10.0, 40.0, 111.0];
    for (got, want) in next.get_vector().iter().zip(expected.iter()) {
        assert!((got - want).abs() < 1e-9);
    }
    // Each stage is the sum, from the left and onto zero, of rate times count.
    let by_hand: Vec<f64> = turtle_rates()
        .iter()
        .map(|row| {
            let mut sum = 0.0;
            for (rate, count) in row.iter().zip([40.0, 20.0, 100.0].iter()) {
                sum += rate * count;
            }
            sum
        })
        .collect();
    assert_eq!(next.get_vector(), &by_hand);
}

#[test]
fn projection_is_exact_over_whole_numbers() {
    let matrix =
        PopulationMatrix::build(vec![vec![0i64, 0, 1], vec![6, 8, 0], vec![0, 8, 9]]).unwrap();
    let population = PopulationVector::new(vec![40i64, 20, 100]);
    let next = matrix.project_vector(&population).unwrap();
    assert_eq!(next.get_vector(), &vec![100i64, 400, 1060]);
}

#[test]
fn projection_reads_rows_as_destinations() {
    // Entry [0][1] feeds stage 0 from stage 1, not the other way round.
    let matrix = PopulationMatrix::build(vec![vec![0i64, 3], vec![0, 0]]).unwrap();
    let population = PopulationVector::new(vec![5i64, 7]);
    let next = matrix.project_vector(&population).unwrap();
    assert_eq!(next.get_vector(), &vec![21i64, 0]);
}

#[test]
fn terms_are_added_from_the_left() {
    // 1e16 + 1 rounds back to 1e16, so the order of the additions shows.
    let matrix = PopulationMatrix::build(vec![
        vec![1e16, 1.0, -1e16],
        vec![1e16, -1e16, 1.0],
        vec![0.0, 0.0, 0.0],
    ])
    .unwrap();
    let population = PopulationVector::new(vec![1.0, 1.0, 1.0]);
    let next = matrix.project_vector(&population).unwrap();
    assert_eq!(next.get_vector(), &vec![0.0, 1.0, 0.0]);
}

#[test]
fn inputs_are_unchanged_by_a_projection() {
    let matrix = PopulationMatrix::build(turtle_rates()).unwrap();
    let population = PopulationVector::new(vec![40.0, 20.0, 100.0]);
    let first = matrix.project_vector(&population).unwrap();
    assert_eq!(population.get_vector(), &vec![40.0, 20.0, 100.0]);
    assert_eq!(population.get_lifestage_count(), 3);
    assert_eq!(matrix.get_matrix(), &turtle_rates());
    assert_eq!(matrix.get_lifestage_count(), 3);
    let second = matrix.project_vector(&population).unwrap();
    assert_eq!(first.get_vector(), second.get_vector());
    let refused = matrix.project_vector(&PopulationVector::new(vec![1.0]));
    assert!(refused.is_err());
    assert_eq!(matrix.get_matrix(), &turtle_rates());
}

#[test]
fn matrices_built_alike_project_alike() {
    let first = PopulationMatrix::build(turtle_rates()).unwrap();
    let second = PopulationMatrix::build(turtle_rates()).unwrap();
    assert_eq!(first.get_matrix(), second.get_matrix());
    let population = PopulationVector::new(vec![40.0, 20.0, 100.0]);
    assert_eq!(
        first.project_vector(&population).unwrap().get_vector(),
        second.project_vector(&population).unwrap().get_vector()
    );
}

#[test]
fn population_needs_matching_stage_counts() {
    let built = PvaDeterministicPopulation::build(
        PopulationVector::new(vec![40.0, 20.0]),
        PopulationMatrix::build(turtle_rates()).unwrap(),
    );
    assert_eq!(built.err(), Some(DimensionError::Mismatch));
    let fitting = PvaDeterministicPopulation::build(
        PopulationVector::new(vec![40.0, 20.0, 100.0]),
        PopulationMatrix::build(turtle_rates()).unwrap(),
    );
    assert!(fitting.is_ok());
}

#[test]
fn eight_years_twice_over() {
    let run = || {
        let population = PvaDeterministicPopulation::build(
            PopulationVector::new(vec![40.0, 20.0, 100.0]),
            PopulationMatrix::build(turtle_rates()).unwrap(),
        )
        .unwrap();
        population.deterministic_projection(8)
    };
    let first = run();
    let second = run();
    assert_eq!(first.return_output().len(), 8);
    assert_eq!(to_one_decimal(first.return_output()[7].get_vector()), vec![24.9, 50.8, 273.5]);
    for (a, b) in first.return_output().iter().zip(second.return_output().iter()) {
        let bits_a: Vec<u64> = a.get_vector().iter().map(|x| x.to_bits()).collect();
        let bits_b: Vec<u64> = b.get_vector().iter().map(|x| x.to_bits()).collect();
        assert_eq!(bits_a, bits_b);
    }
}

#[test]
fn one_population_runs_again_from_its_start() {
    let population = PvaDeterministicPopulation::build(
        PopulationVector::new(vec![40.0, 20.0, 100.0]),
        PopulationMatrix::build(turtle_rates()).unwrap(),
    )
    .unwrap();
    let long = population.deterministic_projection(8);
    let short = population.deterministic_projection(3);
    assert_eq!(short.return_output().len(), 3);
    for year in 0..3 {
        assert_eq!(
            short.return_output()[year].get_vector(),
            long.return_output()[year].get_vector()
        );
    }
}

#[test]
fn each_year_is_projected_from_the_year_before() {
    let matrix = PopulationMatrix::build(turtle_rates()).unwrap();
    let population = PvaDeterministicPopulation::build(
        PopulationVector::new(vec![40.0, 20.0, 100.0]),
        PopulationMatrix::build(turtle_rates()).unwrap(),
    )
    .unwrap();
    let output = population.deterministic_projection(4);
    let series = output.return_output();
    let mut active = PopulationVector::new(vec![40.0, 20.0, 100.0]);
    for year in 0..4 {
        active = matrix.project_vector(&active).unwrap();
        assert_eq!(series[year].get_vector(), active.get_vector());
    }
    assert_eq!(to_one_decimal(series[0].get_vector()), vec![10.0, 40.0, 111.0]);
}

#[test]
fn no_iterations_give_no_populations() {
    let population = PvaDeterministicPopulation::build(
        PopulationVector::new(vec![40.0, 20.0, 100.0]),
        PopulationMatrix::build(turtle_rates()).unwrap(),
    )
    .unwrap();
    let output = population.deterministic_projection(0);
    assert!(output.return_output().is_empty());
    assert_eq!(output.format_output(), "");
}

#[test]
fn run_checks_then_projects() {
    let refused = run_deterministic(
        PopulationVector::new(vec![40.0, 20.0, 100.0]),
        PopulationMatrix::build(vec![vec![0.5, 0.5], vec![0.25, 0.75]]).unwrap(),
        5,
    );
    assert_eq!(refused.err(), Some(DimensionError::Mismatch));
    let run = run_deterministic(
        PopulationVector::new(vec![40i64, 20, 100]),
        PopulationMatrix::build(vec![vec![0i64, 0, 1], vec![1, 0, 0], vec![0, 1, 0]]).unwrap(),
        3,
    )
    .unwrap();
    let series: Vec<&Vec<i64>> = run.return_output().iter().map(|v| v.get_vector()).collect();
    assert_eq!(series, vec![&vec![100i64, 40, 20], &vec![20, 100, 40], &vec![40, 20, 100]]);
    let nothing = run_deterministic(
        PopulationVector::new(vec![40i64, 20, 100]),
        PopulationMatrix::build(vec![vec![0i64, 0, 1], vec![1, 0, 0], vec![0, 1, 0]]).unwrap(),
        0,
    )
    .unwrap();
    assert!(nothing.return_output().is_empty());
}

#[test]
fn output_holds_what_it_was_given() {
    let output = PvaDeterministicOutput::new(vec![
        PopulationVector::new(vec![1.5, 2.0]),
        PopulationVector::new(vec![3.0, 4.25]),
    ]);
    assert_eq!(output.return_output().len(), 2);
    assert_eq!(output.return_output()[0].get_vector(), &vec![1.5, 2.0]);
    assert_eq!(output.return_output()[1].get_vector(), &vec![3.0, 4.25]);
}

#[test]
fn output_is_laid_out_line_by_line() {
    let output = PvaDeterministicOutput::new(vec![
        PopulationVector::new(vec![10.0, 40.0, 111.0]),
        PopulationVector::new(vec![11.1, 38.0, 137.45]),
    ]);
    assert_eq!(output.format_output(), "10, 40, 111\n11.1, 38, 137.45");
    let whole = PvaDeterministicOutput::new(vec![PopulationVector::new(vec![7u8])]);
    assert_eq!(whole.format_output(), "7");
}

#[test]
fn stochastic_output_is_not_supported() {
    let stochastic: PvaOutput<f64> = PvaOutput::Stochastic;
    assert_eq!(stochastic.return_output().err(), Some(UnsupportedMode));
    let deterministic = PvaOutput::Deterministic(PvaDeterministicOutput::new(vec![
        PopulationVector::new(vec![1.0, 2.0]),
    ]));
    let series = deterministic.return_output().unwrap();
    assert_eq!(series.len(), 1);
    assert_eq!(series[0].get_vector(), &vec![1.0, 2.0]);
}

#[test]
fn errors_have_their_sentences() {
    assert_eq!(
        ShapeError::NotSquare.message(),
        "Number of items in lifestages must match number of inputted sub-vectors."
    );
    assert_eq!(
        ShapeError::RaggedRows.message(),
        "All sub-vectors must be of matching lengths to construct a population matrix."
    );
    assert_eq!(ShapeError::Empty.message(), "A population matrix needs at least one sub-vector.");
    assert_eq!(
        DimensionError::Mismatch.message(),
        "the length of inputted population matrix and population vector do not match."
    );
    assert_eq!(UnsupportedMode.message(), "Stochastic projection is not implemented.");
}
