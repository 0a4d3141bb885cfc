use algo_drills::sorting::sort;

#[test]
fn test_sort_1() {
    let mut vec = vec![37, 73, 57, 75, 91, 19, 46, 64];
    sort(&mut vec);
    assert_eq!(vec, vec![19, 37, 46, 57, 64, 73, 75, 91]);
}

#[test]
fn test_sort_2() {
    let mut vec = vec![1];
    sort(&mut vec);
    assert_eq!(vec, vec![1]);
}

#[test]
fn test_sort_3() {
    let mut vec = vec![99, 88, 77, 66, 55, 44, 33, 22, 11];
    sort(&mut vec);
    assert_eq!(vec, vec![11, 22, 33, 44, 55, 66, 77, 88, 99]);
}

#[test]
fn sort_empty() {
    let mut vec: Vec<i32> = vec![];
    sort(&mut vec);
    assert!(vec.is_empty());
}

#[test]
fn sort_keeps_duplicates_and_extremes() {
    let mut vec = vec![3, i32::MIN, 3, -1, i32::MAX, 0, -1];
    sort(&mut vec);
    assert_eq!(vec, vec![i32::MIN, -1, -1, 0, 3, 3, i32::MAX]);
}
