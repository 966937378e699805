use passgen::password::generate;
use passgen::request::Request;
use passgen::symbols::SymbolsSet;
use passgen::universe::Args;
use rand::rngs::OsRng;

fn args(allowed: &[&str], disallowed: &[&str]) -> Args {
    let parse = |texts: &[&str]| -> Vec<SymbolsSet> {
        texts
            .iter()
            .map(|text| SymbolsSet::from_str(text).expect("text is not empty"))
            .collect()
    };
    Args {
        no_latin_lower: false,
        no_latin_upper: false,
        no_latin: false,
        no_digits: false,
        no_special: false,
        allowed: parse(allowed),
        disallowed: parse(disallowed),
        verbose: false,
        copy: false,
        length: 24,
    }
}

#[test]
fn generate_has_the_length_asked_for() {
    let symbols = SymbolsSet::latin_lower();
    for length in [0u32, 1, 2, 24, 1000] {
        let password = generate(&symbols, length, &mut OsRng);
        assert_eq!(password.chars().count(), length as usize);
        assert!(password.chars().all(|symbol| symbols.contains(symbol)));
    }
}

#[test]
fn generate_counts_scalar_values() {
    let symbols = SymbolsSet::from(['é', '😀', 'ß']);
    let password = generate(&symbols, 50, &mut OsRng);
    assert_eq!(password.chars().count(), 50);
    assert!(password.len() >= 100);
    assert!(password.chars().all(|symbol| symbols.contains(symbol)));
}

#[test]
fn generate_from_a_single_symbol_repeats_it() {
    let symbols = SymbolsSet::from(['#']);
    assert_eq!(generate(&symbols, 12, &mut OsRng), "############");
}

#[test]
fn scenario_latin_letters_only() {
    let request = Request::new(&Args {
        no_digits: true,
        no_special: true,
        length: 10,
        ..args(&[], &[])
    })
    .expect("latin is on");
    assert_eq!(request.symbols.len(), 52);
    let password = generate(&request.symbols, request.length, &mut OsRng);
    assert_eq!(password.chars().count(), 10);
    assert!(password.chars().all(|symbol| symbol.is_ascii_alphabetic()));
}

#[test]
fn scenario_allowed_symbols_only() {
    let request = Request::new(&Args {
        no_latin: true,
        no_digits: true,
        no_special: true,
        ..args(&["xyz"], &[])
    })
    .expect("xyz is allowed");
    assert_eq!(request.symbols.to_vec(), vec!['x', 'y', 'z']);
    for _ in 0..20 {
        let password = generate(&request.symbols, request.length, &mut OsRng);
        assert_eq!(password.chars().count(), 24);
        assert!(password.chars().all(|symbol| "xyz".contains(symbol)));
    }
}

#[test]
fn scenario_denied_symbol_is_never_drawn() {
    let request = Request::new(&Args {
        no_latin: true,
        no_digits: true,
        no_special: true,
        ..args(&["abc"], &["b"])
    })
    .expect("a and c stay");
    assert_eq!(request.symbols.to_vec(), vec!['a', 'c']);
    let password = generate(&request.symbols, 500, &mut OsRng);
    assert!(password.chars().all(|symbol| symbol == 'a' || symbol == 'c'));
    assert!(Request::new(&Args {
        no_latin: true,
        no_digits: true,
        no_special: true,
        ..args(&["abc"], &["abc"])
    })
    .is_err());
}
