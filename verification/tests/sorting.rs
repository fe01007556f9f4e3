use sort_bench::sorting::{bubble_sort, insertion_sort};

fn scrambled(len: usize, seed: u32) -> Vec<i32> {
    let mut state = seed;
    let mut values = Vec::with_capacity(len);
    for _ in 0..len {
        state = state.wrapping_mul(1_664_525).wrapping_add(1_013_904_223);
        values.push((state >> 8) as i32 % 1000 - 500);
    }
    values
}

fn is_non_descending(values: &[i32]) -> bool {
    values.windows(2).all(|pair| pair[0] <= pair[1])
}

fn count_of(values: &[i32], wanted: i32) -> usize {
    values.iter().filter(|value| **value == wanted).count()
}

#[test]
fn insertion_sort_orders_the_known_fixture() {
    assert_eq!(insertion_sort(&[5, 3, 1, 4, 2]), vec![1, 2, 3, 4, 5]);
}

#[test]
fn bubble_sort_orders_the_known_fixture() {
    assert_eq!(bubble_sort(&[5, 3, 1, 4, 2]), vec![1, 2, 3, 4, 5]);
}

#[test]
fn empty_input_comes_back_empty() {
    assert_eq!(insertion_sort(&[]), Vec::<i32>::new());
    assert_eq!(bubble_sort(&[]), Vec::<i32>::new());
}

#[test]
fn single_element_comes_back_unchanged() {
    assert_eq!(insertion_sort(&[42]), vec![42]);
    assert_eq!(bubble_sort(&[42]), vec![42]);
    assert_eq!(insertion_sort(&[i32::MIN]), vec![i32::MIN]);
    assert_eq!(bubble_sort(&[i32::MAX]), vec![i32::MAX]);
}

#[test]
fn two_elements_are_exchanged_only_when_out_of_order() {
    assert_eq!(insertion_sort(&[2, 1]), vec![1, 2]);
    assert_eq!(bubble_sort(&[2, 1]), vec![1, 2]);
    assert_eq!(insertion_sort(&[1, 2]), vec![1, 2]);
    assert_eq!(bubble_sort(&[1, 2]), vec![1, 2]);
}

#[test]
fn duplicates_and_negatives_are_kept() {
    let input = [3, -1, 3, 0, -1, 3, i32::MAX, i32::MIN, 0];
    let expected = vec![i32::MIN, -1, -1, 0, 0, 3, 3, 3, i32::MAX];
    assert_eq!(insertion_sort(&input), expected);
    assert_eq!(bubble_sort(&input), expected);
}

#[test]
fn reversed_input_is_put_in_order() {
    let input: Vec<i32> = (0..200).rev().collect();
    let expected: Vec<i32> = (0..200).collect();
    assert_eq!(insertion_sort(&input), expected);
    assert_eq!(bubble_sort(&input), expected);
}

#[test]
fn output_is_a_non_descending_rearrangement_of_the_input() {
    for seed in 0..20u32 {
        let input = scrambled(seed as usize * 13, seed);
        for output in [insertion_sort(&input), bubble_sort(&input)] {
            assert_eq!(output.len(), input.len());
            assert!(is_non_descending(&output));
            for value in -500..500 {
                assert_eq!(count_of(&output, value), count_of(&input, value));
            }
        }
    }
}

#[test]
fn both_algorithms_give_the_same_output() {
    for seed in 0..20u32 {
        let input = scrambled(100 + seed as usize, seed.wrapping_mul(7919));
        assert_eq!(insertion_sort(&input), bubble_sort(&input));
    }
}

#[test]
fn both_algorithms_agree_with_the_standard_sort() {
    let input = scrambled(500, 12345);
    let mut expected = input.clone();
    expected.sort();
    assert_eq!(insertion_sort(&input), expected);
    assert_eq!(bubble_sort(&input), expected);
}

#[test]
fn sorting_twice_changes_nothing() {
    let input = scrambled(300, 99);
    let once = insertion_sort(&input);
    assert_eq!(insertion_sort(&once), once);
    assert_eq!(bubble_sort(&once), once);
    let once = bubble_sort(&input);
    assert_eq!(bubble_sort(&once), once);
    assert_eq!(insertion_sort(&once), once);
}

#[test]
fn sorted_input_comes_back_unchanged() {
    let input = vec![-7, -7, 0, 1, 1, 2, 90, 1000];
    assert_eq!(insertion_sort(&input), input);
    assert_eq!(bubble_sort(&input), input);
}

#[test]
fn the_input_is_left_as_it_was() {
    let input = vec![9, 8, 7, 1, 2, 3];
    let kept = input.clone();
    let _ = insertion_sort(&input);
    assert_eq!(input, kept);
    let _ = bubble_sort(&input);
    assert_eq!(input, kept);
}

#[test]
fn each_position_holds_the_value_of_its_rank() {
    for seed in 0..10u32 {
        let input = scrambled(40 + seed as usize, seed.wrapping_mul(31) + 5);
        for output in [insertion_sort(&input), bubble_sort(&input)] {
            assert_eq!(output.len(), input.len());
            for (k, value) in output.iter().enumerate() {
                assert!(input.contains(value));
                let below = input.iter().filter(|other| *other < value).count();
                let at_most = input.iter().filter(|other| *other <= value).count();
                assert!(below <= k && k < at_most);
            }
        }
    }
}

#[test]
fn ranks_of_the_known_fixture() {
    let input = [5, 3, 1, 4, 2];
    let output = insertion_sort(&input);
    for (k, value) in output.iter().enumerate() {
        assert_eq!(input.iter().filter(|other| *other < value).count(), k);
        assert_eq!(input.iter().filter(|other| *other <= value).count(), k + 1);
    }
}
