use interruptable_function::prelude::{Interruptable, Status};
use interruptable_function::sort::{leading_ascents, Sort};

fn poll_pending(sort: &mut Sort) {
    match sort.poll() {
        Status::Pending => {},
        Status::Done(_) => panic!("the sort completed early"),
    }
}

fn poll_done(sort: &mut Sort) -> Vec<u8> {
    match sort.poll() {
        Status::Pending => panic!("the sort is not done"),
        Status::Done(sorted) => sorted,
    }
}

#[test]
fn sort_steps_place_one_byte_each() {
    let mut sort = Sort::new(vec![5, 3, 4, 1, 2]);
    assert_eq!(sort.partial_result(), Some(vec![5, 3, 4, 1, 2]));
    poll_pending(&mut sort);
    assert_eq!(sort.partial_result(), Some(vec![1, 3, 4, 5, 2]));
    poll_pending(&mut sort);
    assert_eq!(sort.partial_result(), Some(vec![1, 2, 4, 5, 3]));
    poll_pending(&mut sort);
    assert_eq!(sort.partial_result(), Some(vec![1, 2, 3, 5, 4]));
    assert_eq!(poll_done(&mut sort), vec![1, 2, 3, 4, 5]);
    assert_eq!(sort.partial_result(), Some(vec![1, 2, 3, 4, 5]));
}

#[test]
fn sort_takes_the_first_of_equal_minima() {
    let mut sort = Sort::new(vec![3, 1, 2, 1]);
    poll_pending(&mut sort);
    assert_eq!(sort.partial_result(), Some(vec![1, 3, 2, 1]));
    assert_eq!(poll_done(&mut sort), vec![1, 1, 2, 3]);
}

#[test]
fn sorted_input_is_done_with_the_first_step() {
    let mut sort = Sort::new(vec![1, 2, 2, 9]);
    assert_eq!(poll_done(&mut sort), vec![1, 2, 2, 9]);
}

#[test]
fn single_byte_is_done_with_the_first_step() {
    let mut sort = Sort::new(vec![42]);
    assert_eq!(poll_done(&mut sort), vec![42]);
}

#[test]
fn empty_input_is_done_with_the_first_step() {
    let mut sort = Sort::new(Vec::new());
    assert_eq!(poll_done(&mut sort), Vec::<u8>::new());
    assert_eq!(sort.partial_result(), Some(Vec::new()));
}

#[test]
fn polling_a_finished_sort_reports_done_again() {
    let mut sort = Sort::new(vec![2, 1]);
    assert_eq!(poll_done(&mut sort), vec![1, 2]);
    assert_eq!(poll_done(&mut sort), vec![1, 2]);
    assert_eq!(poll_done(&mut sort), vec![1, 2]);
}

#[test]
fn reverse_order_takes_half_the_steps() {
    let mut sort = Sort::new(vec![6, 5, 4, 3, 2, 1]);
    poll_pending(&mut sort);
    assert_eq!(sort.partial_result(), Some(vec![1, 5, 4, 3, 2, 6]));
    poll_pending(&mut sort);
    assert_eq!(sort.partial_result(), Some(vec![1, 2, 4, 3, 5, 6]));
    assert_eq!(poll_done(&mut sort), vec![1, 2, 3, 4, 5, 6]);
}

#[test]
fn leading_ascents_stop_at_the_first_descent() {
    assert_eq!(leading_ascents(&vec![1, 2, 4, 5, 3]), 3);
    assert_eq!(leading_ascents(&vec![1, 3, 4, 5, 2]), 3);
    assert_eq!(leading_ascents(&vec![5, 3, 4, 1, 2]), 0);
    assert_eq!(leading_ascents(&vec![2, 2, 1]), 1);
}

#[test]
fn leading_ascents_of_sorted_bytes_stop_before_the_last() {
    assert_eq!(leading_ascents(&vec![1, 2, 3, 4, 5]), 4);
    assert_eq!(leading_ascents(&vec![7, 7]), 1);
}

#[test]
fn leading_ascents_of_short_input() {
    assert_eq!(leading_ascents(&Vec::new()), 0);
    assert_eq!(leading_ascents(&vec![9]), 0);
}
