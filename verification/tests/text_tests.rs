use threadkit::commands::{Command, Register};
use threadkit::words::{split_words, task2};

#[test]
fn pig_latin_moves_a_leading_consonant() {
    assert_eq!(task2("first"), "irst-fay");
}

#[test]
fn pig_latin_keeps_a_leading_vowel() {
    assert_eq!(task2("apple"), "apple-hay");
}

#[test]
fn pig_latin_single_letter() {
    assert_eq!(task2("b"), "-bay");
    assert_eq!(task2("a"), "a-hay");
}

#[test]
fn split_words_drops_all_whitespace() {
    assert_eq!(
        split_words("  Add  Sally to   Engineering \n"),
        vec!["Add", "Sally", "to", "Engineering"]
    );
    assert_eq!(split_words(""), Vec::<String>::new());
    assert_eq!(split_words("   \t \n"), Vec::<String>::new());
    assert_eq!(split_words("one"), vec!["one"]);
}

#[test]
fn parse_list_all() {
    match Command::parse(&"List".to_owned()) {
        Some(Command::List(None)) => {}
        other => panic!("unexpected parse: {:?}", parse_kind(&other)),
    }
}

#[test]
fn parse_quit() {
    assert!(matches!(
        Command::parse(&" Quit \n".to_owned()),
        Some(Command::Quit())
    ));
}

#[test]
fn parse_list_one_department() {
    match Command::parse(&"List Sales".to_owned()) {
        Some(Command::List(Some(dep))) => assert_eq!(dep, "Sales"),
        other => panic!("unexpected parse: {:?}", parse_kind(&other)),
    }
}

#[test]
fn parse_add_command() {
    match Command::parse(&"Add Sally to Engineering".to_owned()) {
        Some(Command::Add(dep, person)) => {
            assert_eq!(dep, "Engineering");
            assert_eq!(person, "Sally");
        }
        other => panic!("unexpected parse: {:?}", parse_kind(&other)),
    }
}

#[test]
fn parse_accepts_four_words_with_to_in_third_place() {
    // `Add` in first place or `to` in third place is enough for an addition
    match Command::parse(&"Move Amir to Sales".to_owned()) {
        Some(Command::Add(dep, person)) => {
            assert_eq!(dep, "Sales");
            assert_eq!(person, "Amir");
        }
        other => panic!("unexpected parse: {:?}", parse_kind(&other)),
    }
}

#[test]
fn parse_rejects_bad_lines() {
    assert!(Command::parse(&"".to_owned()).is_none());
    assert!(Command::parse(&"Hello".to_owned()).is_none());
    assert!(Command::parse(&"Add Sally".to_owned()).is_none());
    assert!(Command::parse(&"Put Sally at Engineering".to_owned()).is_none());
    assert!(Command::parse(&"Add Sally to Engineering now".to_owned()).is_none());
}

fn parse_kind(r: &Option<Command>) -> &'static str {
    match r {
        None => "none",
        Some(Command::Add(_, _)) => "add",
        Some(Command::List(None)) => "list-all",
        Some(Command::List(Some(_))) => "list-one",
        Some(Command::Quit()) => "quit",
    }
}

#[test]
fn register_groups_people_by_department() {
    let mut reg = Register::new();
    reg.add("Engineering".to_owned(), "Sally".to_owned());
    reg.add("Sales".to_owned(), "Amir".to_owned());
    reg.add("Engineering".to_owned(), "Grace".to_owned());
    let eng = reg.people_in(&"Engineering".to_owned()).unwrap();
    assert_eq!(eng, &vec!["Sally".to_owned(), "Grace".to_owned()]);
    let sales = reg.people_in(&"Sales".to_owned()).unwrap();
    assert_eq!(sales, &vec!["Amir".to_owned()]);
    assert!(reg.people_in(&"Legal".to_owned()).is_none());
}

#[test]
fn register_keeps_department_order_of_first_sight() {
    let mut reg = Register::new();
    reg.add("B".to_owned(), "one".to_owned());
    reg.add("A".to_owned(), "two".to_owned());
    reg.add("B".to_owned(), "three".to_owned());
    let names: Vec<&String> = reg.departments.iter().map(|d| &d.name).collect();
    assert_eq!(names, vec!["B", "A"]);
}
