use paint_palette::sorted_vector::SortedVector;

fn prop_sorted_vec(mut values: Vec<i32>) -> bool {
    let mut sorted_vec = SortedVector::new();
    for &value in &values {
        sorted_vec.push(value)
    }

    values.sort();
    let mut results = Vec::with_capacity(values.len());
    while !sorted_vec.is_empty() {
        results.push(sorted_vec.pop().unwrap());
    }
    results.reverse();
    assert_eq!(&values, &results);

    true
}

#[test]
fn test_sorted_vec() {
    quickcheck::quickcheck(prop_sorted_vec as fn(Vec<i32>) -> bool);
}

#[test]
fn new_vector_is_empty() {
    let vector: SortedVector<u8> = SortedVector::new();
    assert!(vector.is_empty());
    assert_eq!(vector.len(), 0);
    assert_eq!(vector.peek(), None);
    assert_eq!(vector.array, Vec::<u8>::new());
}

#[test]
fn push_keeps_ascending_order() {
    let mut vector = SortedVector::new();
    for value in [5, 1, 4, 1, 3, 9, 2, 6] {
        vector.push(value);
    }
    assert_eq!(vector.array, vec![1, 1, 2, 3, 4, 5, 6, 9]);
    assert_eq!(vector.len(), 8);
    assert!(!vector.is_empty());
}

#[test]
fn push_of_descending_values_moves_each_to_the_front() {
    let mut vector = SortedVector::new();
    vector.push(3);
    assert_eq!(vector.array, vec![3]);
    vector.push(2);
    assert_eq!(vector.array, vec![2, 3]);
    vector.push(1);
    assert_eq!(vector.array, vec![1, 2, 3]);
}

#[test]
fn push_puts_equal_values_behind_earlier_ones() {
    // Pairs compare by the first field, then by the second: with the push
    // number as the second field, equal first fields keep the order of the pushes.
    let mut vector = SortedVector::new();
    vector.push((7, 0));
    vector.push((3, 1));
    vector.push((7, 2));
    vector.push((3, 3));
    assert_eq!(vector.array, vec![(3, 1), (3, 3), (7, 0), (7, 2)]);
}

#[test]
fn peek_and_pop_give_the_greatest() {
    let mut vector = SortedVector::new();
    vector.push(10);
    vector.push(30);
    vector.push(20);
    assert_eq!(vector.peek(), Some(&30));
    assert_eq!(vector.len(), 3);
    assert_eq!(vector.pop(), Some(30));
    assert_eq!(vector.pop(), Some(20));
    assert_eq!(vector.peek(), Some(&10));
    assert_eq!(vector.pop(), Some(10));
    assert_eq!(vector.pop(), None);
    assert_eq!(vector.peek(), None);
    assert!(vector.is_empty());
}

#[test]
fn pops_descend_whatever_the_push_order() {
    let mut vector = SortedVector::new();
    for value in [4u16, 8, 15, 16, 23, 42, 0, 42, 7] {
        vector.push(value);
    }
    let mut popped = Vec::new();
    while let Some(value) = vector.pop() {
        popped.push(value);
    }
    assert_eq!(popped, vec![42, 42, 23, 16, 15, 8, 7, 4, 0]);
}

#[test]
fn clear_removes_everything() {
    let mut vector = SortedVector::new();
    vector.push(2);
    vector.push(1);
    vector.clear();
    assert!(vector.is_empty());
    assert_eq!(vector.len(), 0);
    vector.push(5);
    assert_eq!(vector.array, vec![5]);
}

#[test]
fn clone_holds_the_same_elements() {
    let mut vector = SortedVector::new();
    vector.push(2);
    vector.push(1);
    let copy = vector.clone();
    assert_eq!(copy, vector);
    assert_eq!(copy.array, vec![1, 2]);
}
