use threadkit::generics::{largest, largest_2, largest_3, Pair};
use threadkit::misc::{
    derive_macro, enum_initializer, never_type, returns_closure, split_at, split_at_mut,
    takes_long_type, type_alias_2, HelloMacro, MyBox, Pancakes, Status,
};

#[test]
fn largest_of_numbers() {
    let numbers = vec![34, 50, 25, 100, 65];
    assert_eq!(largest(&numbers), 100);
}

#[test]
fn largest_of_chars() {
    let chars = vec!['y', 'm', 'a', 'q'];
    assert_eq!(largest(&chars), 'y');
}

#[test]
fn largest_2_clones_the_winner() {
    let words = vec!["pear".to_owned(), "plum".to_owned(), "fig".to_owned()];
    assert_eq!(largest_2(&words), "plum");
}

#[test]
fn largest_3_returns_a_reference() {
    let numbers = vec![3, 9, 2];
    assert_eq!(*largest_3(&numbers), 9);
}

#[test]
fn largest_keeps_the_first_of_equals() {
    assert_eq!(largest(&[5, 5, 1]), 5);
    assert_eq!(*largest_3(&[2, 7, 7]), 7);
}

#[test]
fn pair_new_stores_both() {
    let p = Pair::new(1, 2);
    assert_eq!(p.x, 1);
    assert_eq!(p.y, 2);
}

#[test]
fn my_box_wraps_a_value() {
    let b = MyBox::new("Rust".to_owned());
    assert_eq!(b.0, "Rust");
}

#[test]
fn split_at_divides_a_slice() {
    let data = [1, 2, 3, 4, 5];
    let (left, right) = split_at(&data, 2);
    assert_eq!(left, &[1, 2]);
    assert_eq!(right, &[3, 4, 5]);
    let (none, all) = split_at(&data, 0);
    assert!(none.is_empty());
    assert_eq!(all, &data);
}

#[test]
fn split_at_mut_gives_two_writable_halves() {
    let mut data = [1, 2, 3, 4, 5];
    let (left, right) = split_at_mut(&mut data, 2);
    assert_eq!(left, &[1, 2]);
    assert_eq!(right, &[3, 4, 5]);
    left[0] = 10;
    right[2] = 50;
    assert_eq!(data, [10, 2, 3, 4, 50]);
}

#[test]
fn never_type_picks_the_some_branch() {
    assert_eq!(never_type(), 1337);
}

#[test]
fn thunks_run_once() {
    assert_eq!(type_alias_2(), 42);
    assert_eq!(takes_long_type(|| 11), 11);
}

#[test]
fn enum_initializer_builds_twenty_statuses() {
    let statuses = enum_initializer();
    assert_eq!(statuses.len(), 20);
    for (i, s) in statuses.iter().enumerate() {
        match s {
            Status::Value(v) => assert_eq!(*v as usize, i),
            Status::Stop => panic!("no stop expected"),
        }
    }
}

#[test]
fn returned_closure_adds_one() {
    let add_one = returns_closure();
    assert_eq!(add_one(5), 6);
    assert_eq!(add_one(-1), 0);
}

#[test]
fn pancakes_greet() {
    assert_eq!(Pancakes::hello_macro(), "Hello, Macro! My name is Pancakes!");
    assert_eq!(derive_macro(), "Hello, Macro! My name is Pancakes!");
}
