use passgen::error::Error;
use passgen::request::Request;
use passgen::symbols::SymbolsSet;
use passgen::universe::{merge, universe, Args};

fn sets(texts: &[&str]) -> Vec<SymbolsSet> {
    texts
        .iter()
        .map(|text| SymbolsSet::from_str(text).expect("text is not empty"))
        .collect()
}

fn args(allowed: &[&str], disallowed: &[&str]) -> Args {
    Args {
        no_latin_lower: false,
        no_latin_upper: false,
        no_latin: false,
        no_digits: false,
        no_special: false,
        allowed: sets(allowed),
        disallowed: sets(disallowed),
        verbose: false,
        copy: false,
        length: 24,
    }
}

fn nothing_enabled(allowed: &[&str], disallowed: &[&str]) -> Args {
    Args {
        no_latin: true,
        no_digits: true,
        no_special: true,
        ..args(allowed, disallowed)
    }
}

#[test]
fn merge_into_nothing_is_the_set() {
    let mut maybe_set = None;
    merge(&mut maybe_set, SymbolsSet::from(['b', 'a']));
    assert_eq!(maybe_set.expect("was set").to_vec(), vec!['a', 'b']);
}

#[test]
fn merge_into_a_set_is_the_union() {
    let mut maybe_set = Some(SymbolsSet::from(['a', 'c']));
    merge(&mut maybe_set, SymbolsSet::from(['b', 'c']));
    assert_eq!(maybe_set.expect("stays set").to_vec(), vec!['a', 'b', 'c']);
}

#[test]
fn universe_by_default_is_every_category() {
    let symbols = universe(&args(&[], &[])).expect("all categories are on");
    assert_eq!(symbols.len(), 94);
    assert_eq!(
        symbols.to_string(),
        "!\"#$%&'()*+,-./0123456789:;<=>?@ABCDEFGHIJKLMNOPQRSTUVWXYZ[\\]^_`abcdefghijklmnopqrstuvwxyz{|}~"
    );
}

#[test]
fn universe_of_latin_letters() {
    let symbols = universe(&Args {
        no_digits: true,
        no_special: true,
        ..args(&[], &[])
    })
    .expect("latin is on");
    assert_eq!(symbols.len(), 52);
    assert_eq!(
        symbols.to_string(),
        "ABCDEFGHIJKLMNOPQRSTUVWXYZabcdefghijklmnopqrstuvwxyz"
    );
}

#[test]
fn universe_of_allowed_symbols_alone() {
    let symbols = universe(&nothing_enabled(&["xyz"], &[])).expect("xyz is allowed");
    assert_eq!(symbols.to_vec(), vec!['x', 'y', 'z']);
}

#[test]
fn universe_deny_wins_over_allow() {
    let symbols = universe(&nothing_enabled(&["abc"], &["b"])).expect("a and c stay");
    assert_eq!(symbols.to_vec(), vec!['a', 'c']);
}

#[test]
fn universe_denied_entirely_is_empty() {
    let built = universe(&nothing_enabled(&["abc"], &["abc"]));
    assert!(matches!(built, Err(Error::EmptySet)));
}

#[test]
fn universe_denied_piece_by_piece_is_empty() {
    let built = universe(&nothing_enabled(&["abc", "d"], &["ab", "x", "dc", "y"]));
    assert!(matches!(built, Err(Error::EmptySet)));
}

#[test]
fn universe_with_nothing_enabled_is_empty() {
    let built = universe(&nothing_enabled(&[], &[]));
    assert!(matches!(built, Err(Error::EmptySet)));
    let built = universe(&nothing_enabled(&[], &["a"]));
    assert!(matches!(built, Err(Error::EmptySet)));
}

#[test]
fn universe_without_both_latin_cases_has_no_latin() {
    let by_cases = universe(&Args {
        no_latin_lower: true,
        no_latin_upper: true,
        ..args(&[], &[])
    })
    .expect("digits and special are on");
    let by_flag = universe(&Args {
        no_latin: true,
        ..args(&[], &[])
    })
    .expect("digits and special are on");
    assert_eq!(by_cases.to_vec(), by_flag.to_vec());
    assert_eq!(by_flag.len(), 42);
    let empty = universe(&Args {
        no_latin_lower: true,
        no_latin_upper: true,
        no_digits: true,
        no_special: true,
        ..args(&[], &[])
    });
    assert!(matches!(empty, Err(Error::EmptySet)));
}

#[test]
fn universe_of_one_latin_case() {
    let upper = universe(&Args {
        no_latin_lower: true,
        no_digits: true,
        no_special: true,
        ..args(&[], &[])
    })
    .expect("upper case is on");
    assert_eq!(upper.to_string(), "ABCDEFGHIJKLMNOPQRSTUVWXYZ");
    let lower = universe(&Args {
        no_latin_upper: true,
        no_digits: true,
        no_special: true,
        ..args(&[], &[])
    })
    .expect("lower case is on");
    assert_eq!(lower.to_string(), "abcdefghijklmnopqrstuvwxyz");
}

#[test]
fn universe_takes_allowed_and_denied_in_any_order() {
    let symbols = universe(&Args {
        no_latin: true,
        no_special: true,
        ..args(&["ab", "é", "b0"], &["13579", "a", "z"])
    })
    .expect("something stays");
    assert_eq!(symbols.to_vec(), vec!['0', '2', '4', '6', '8', 'b', 'é']);
}

#[test]
fn request_keeps_length_and_delivery() {
    let request = Request::new(&Args {
        copy: true,
        length: 7,
        ..nothing_enabled(&["k"], &[])
    })
    .expect("k is allowed");
    assert_eq!(request.symbols.to_vec(), vec!['k']);
    assert_eq!(request.length, 7);
    assert!(request.copy);
    assert!(request.has_single_symbol());
}

#[test]
fn request_with_several_symbols_needs_no_warning() {
    let request = Request::new(&args(&[], &[])).expect("all categories are on");
    assert_eq!(request.length, 24);
    assert!(!request.copy);
    assert!(!request.has_single_symbol());
}

#[test]
fn request_without_symbols_fails() {
    let made = Request::new(&nothing_enabled(&["ab"], &["a", "b"]));
    assert!(matches!(made, Err(Error::EmptySet)));
}
