use panama::sort::{Bubble, Insertion, Quick, Selection, Sorter, StdSorter};

#[test]
fn std_works() {
    let mut things = vec![4, 2, 5, 3, 1];
    StdSorter.sort(&mut things);
    assert_eq!(things, &[1, 2, 3, 4, 5]);
}

#[test]
fn bubblesort_it_works() {
    let mut things = vec![4, 2, 5, 3, 1];
    Bubble.sort(&mut things);
    assert_eq!(things, &[1, 2, 3, 4, 5]);
}

#[test]
fn it_works_naive() {
    let mut things = vec![4, 2, 5, 3, 1];
    Insertion { naive: true }.sort(&mut things);
    assert_eq!(things, &[1, 2, 3, 4, 5]);
}

#[test]
fn it_works_smart() {
    let mut things = vec![4, 2, 5, 3, 1];
    Insertion { naive: false }.sort(&mut things);
    assert_eq!(things, &[1, 2, 3, 4, 5]);
}

#[test]
fn quicksort_it_works() {
    let mut things = vec![4, 2, 5, 3, 1];
    Quick.sort(&mut things);
    assert_eq!(things, &[1, 2, 3, 4, 5]);
}

#[test]
fn selectionsort_it_works() {
    let mut things = vec![4, 2, 5, 3, 1];
    Selection.sort(&mut things);
    assert_eq!(things, &[1, 2, 3, 4, 5]);
}

fn all_sorters() -> Vec<Box<dyn Fn(&mut Vec<i32>)>> {
    vec![
        Box::new(|v| StdSorter.sort(v)),
        Box::new(|v| Bubble.sort(v)),
        Box::new(|v| Insertion { naive: true }.sort(v)),
        Box::new(|v| Insertion { naive: false }.sort(v)),
        Box::new(|v| Quick.sort(v)),
        Box::new(|v| Selection.sort(v)),
    ]
}

#[test]
fn sorters_keep_duplicates_and_extremes() {
    let input = vec![3, i32::MIN, 7, 3, -1, i32::MAX, 0, 3, -1, 12, 5, 5];
    let mut want = input.clone();
    want.sort();
    for sort in all_sorters() {
        let mut v = input.clone();
        sort(&mut v);
        assert_eq!(v, want);
    }
}

#[test]
fn sorters_handle_empty_single_and_sorted() {
    for sort in all_sorters() {
        let mut empty: Vec<i32> = vec![];
        sort(&mut empty);
        assert_eq!(empty, Vec::<i32>::new());
        let mut one = vec![9];
        sort(&mut one);
        assert_eq!(one, vec![9]);
        let mut two = vec![2, 1];
        sort(&mut two);
        assert_eq!(two, vec![1, 2]);
        let mut done = vec![1, 2, 3, 4];
        sort(&mut done);
        assert_eq!(done, vec![1, 2, 3, 4]);
        let mut reversed = vec![6, 5, 4, 3, 2, 1, 0];
        sort(&mut reversed);
        assert_eq!(reversed, vec![0, 1, 2, 3, 4, 5, 6]);
    }
}
