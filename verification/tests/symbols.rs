use passgen::symbols::SymbolsSet;
use rand::rngs::OsRng;

fn set(text: &str) -> SymbolsSet {
    SymbolsSet::from_str(text).expect("text is not empty")
}

#[test]
fn add() {
    let result = SymbolsSet::from(['a'])
        .add(&SymbolsSet::from(['b']))
        .to_vec();
    assert_eq!(result, vec!['a', 'b']);
}

#[test]
fn remove() {
    let result = SymbolsSet::from(['a', 'b'])
        .subtract(&SymbolsSet::from(['b']))
        .expect("Must be non-empty")
        .to_vec();
    assert_eq!(result, vec!['a']);

    assert!(SymbolsSet::from(['a', 'b'])
        .subtract(&SymbolsSet::from(['b', 'a']))
        .is_none());
}

#[test]
fn parse_empty() {
    let result: Result<SymbolsSet, _> = "".parse();
    result.unwrap_err();
}

#[test]
fn parse_empty_by_name() {
    assert!(SymbolsSet::from_str("").is_err());
}

#[test]
fn parse_keeps_distinct_characters_in_order() {
    let parsed: SymbolsSet = "hello, world".parse().expect("text is not empty");
    assert_eq!(parsed.to_vec(), vec![' ', ',', 'd', 'e', 'h', 'l', 'o', 'r', 'w']);
    assert_eq!(parsed.len(), 9);
    assert_eq!(parsed.to_string(), " ,dehlorw");
}

#[test]
fn parse_takes_any_scalar_value() {
    let parsed = set("ßaé😀a");
    assert_eq!(parsed.to_vec(), vec!['a', 'ß', 'é', '😀']);
    assert!(parsed.contains('😀'));
    assert!(!parsed.contains('b'));
}

#[test]
fn parse_of_one_repeated_character() {
    let parsed = set("zzzz");
    assert_eq!(parsed.to_vec(), vec!['z']);
    assert_eq!(parsed.len(), 1);
}

#[test]
fn from_array_sorts_and_drops_repetitions() {
    let made = SymbolsSet::from(['c', 'a', 'c', 'b', 'a']);
    assert_eq!(made.to_vec(), vec!['a', 'b', 'c']);
    assert_eq!(made.len(), 3);
}

#[test]
fn latin_upper_is_the_alphabet() {
    let upper = SymbolsSet::latin_upper();
    assert_eq!(upper.len(), 26);
    assert_eq!(upper.to_string(), "ABCDEFGHIJKLMNOPQRSTUVWXYZ");
}

#[test]
fn latin_lower_is_the_alphabet() {
    let lower = SymbolsSet::latin_lower();
    assert_eq!(lower.len(), 26);
    assert_eq!(lower.to_string(), "abcdefghijklmnopqrstuvwxyz");
}

#[test]
fn digits_are_ten() {
    let digits = SymbolsSet::digits();
    assert_eq!(digits.len(), 10);
    assert_eq!(digits.to_string(), "0123456789");
}

#[test]
fn special_is_the_punctuation() {
    let special = SymbolsSet::special();
    assert_eq!(special.len(), 32);
    assert_eq!(special.to_string(), "!\"#$%&'()*+,-./:;<=>?@[\\]^_`{|}~");
    let listed = SymbolsSet::from([
        '`', '~', '!', '@', '#', '$', '%', '^', '&', '*', '(', ')', '-', '_', '=', '+', '[', ']',
        '{', '}', '\\', '|', ';', ':', '\'', '"', ',', '<', '.', '>', '/', '?',
    ]);
    assert_eq!(special.to_vec(), listed.to_vec());
}

#[test]
fn add_is_the_union() {
    let sum = set("badge").add(&set("cafe"));
    assert_eq!(sum.to_vec(), vec!['a', 'b', 'c', 'd', 'e', 'f', 'g']);
    assert!(!sum.is_empty());
}

#[test]
fn add_does_not_depend_on_the_order() {
    let left = set("q1w2e3");
    let right = set("3e4r5t");
    assert_eq!(left.add(&right).to_vec(), right.add(&left).to_vec());
    assert_eq!(left.add(&right).to_string(), "12345eqrtw");
}

#[test]
fn add_of_a_set_to_itself() {
    let one = set("abc");
    assert_eq!(one.add(&one).to_vec(), vec!['a', 'b', 'c']);
}

#[test]
fn add_of_disjoint_ranges() {
    let sum = SymbolsSet::digits().add(&SymbolsSet::latin_upper());
    assert_eq!(sum.len(), 36);
    assert_eq!(sum.to_string(), "0123456789ABCDEFGHIJKLMNOPQRSTUVWXYZ");
}

#[test]
fn subtract_keeps_what_the_other_lacks() {
    let rest = set("abcdef").subtract(&set("bdfz")).expect("a, c and e stay");
    assert_eq!(rest.to_vec(), vec!['a', 'c', 'e']);
}

#[test]
fn subtract_of_a_disjoint_set_changes_nothing() {
    let rest = set("abc").subtract(&set("xyz")).expect("nothing leaves");
    assert_eq!(rest.to_vec(), vec!['a', 'b', 'c']);
}

#[test]
fn subtract_of_an_equal_set_is_none() {
    let one = set("password");
    assert!(one.subtract(&one.clone()).is_none());
    assert!(one.subtract(&set("drowssap")).is_none());
}

#[test]
fn subtract_of_a_larger_set_is_none() {
    assert!(set("abc").subtract(&SymbolsSet::latin_lower()).is_none());
}

#[test]
fn is_empty_is_always_false() {
    assert!(!set("a").is_empty());
    assert!(!SymbolsSet::special().is_empty());
}

#[test]
fn clone_keeps_the_members() {
    let one = set("clone");
    assert_eq!(one.clone().to_vec(), one.to_vec());
}

#[test]
fn sample_is_a_member() {
    let digits = SymbolsSet::digits();
    let mut rng = OsRng;
    for _ in 0..200 {
        let symbol = digits.sample(&mut rng);
        assert!(digits.contains(symbol));
        assert!(symbol.is_ascii_digit());
    }
}

#[test]
fn sample_of_a_single_symbol_is_that_symbol() {
    let single = set("x");
    let mut rng = OsRng;
    for _ in 0..100 {
        assert_eq!(single.sample(&mut rng), 'x');
    }
}

#[test]
fn sample_reaches_every_member() {
    let few = set("abc");
    let mut rng = OsRng;
    let mut seen = [false; 3];
    for _ in 0..1000 {
        match few.sample(&mut rng) {
            'a' => seen[0] = true,
            'b' => seen[1] = true,
            'c' => seen[2] = true,
            other => panic!("{other} is no member"),
        }
    }
    assert_eq!(seen, [true, true, true]);
}
