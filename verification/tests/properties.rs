// Scenario and edge-case checks of the library's own surface: exact outputs,
// normalization, decimal rendering, every error variant, and the boundaries
// of the token length policy.

use cli_example::numbers::usize_to_string;
use cli_example::pipeline::{compose, example_text, prepare, Prepared, RawArgs};
use cli_example::render::{mismatch_warning, render_line, render_lines, render_output};
use cli_example::text::{normalize_list, split_segments};
use cli_example::validate::{validate_input, GreetError, ListKind};

#[test]
fn exact_output_two_by_two_repeat_three() {
    let out = compose("Mario,Anna", "Salve,Ciao", 3, false).expect("valid run");
    assert_eq!(out.output, "Salve Mario!\nCiao Anna!\nSalve Mario!\n");
    assert!(out.warning.is_none());
}

#[test]
fn exact_output_single_pair() {
    let out = compose("Mario", "Salve", 1, false).expect("valid run");
    assert_eq!(out.output, "Salve Mario!\n");
    assert!(out.warning.is_none());
}

#[test]
fn exact_output_cyclic_reuse_with_warning() {
    let out = compose("Mario,Anna", "Salve", 2, false).expect("valid run");
    assert_eq!(out.output, "Salve Mario!\nSalve Anna!\n");
    assert_eq!(
        out.warning.expect("mismatched counts must warn"),
        "Attenzione: il numero di nomi (2) e di saluti (1) non corrisponde. Il programma utilizzerà il ciclo per abbinarli."
    );
}

#[test]
fn negative_repeat_is_fatal() {
    let a = RawArgs {
        names: Some("Mario".to_string()),
        greetings: Some("Salve".to_string()),
        repeat: -3,
        verbose: false,
        example: false,
    };
    match prepare(&a) {
        Prepared::Fail { error } => {
            assert_eq!(error, GreetError::InvalidRepeatValue);
            assert_eq!(
                error.message(),
                "Errore: il valore di --repeat deve essere un numero positivo."
            );
        }
        _ => panic!("a non-positive repeat must be fatal"),
    }
}

#[test]
fn zero_repeat_is_fatal() {
    let a = RawArgs {
        names: Some("Mario".to_string()),
        greetings: Some("Salve".to_string()),
        repeat: 0,
        verbose: false,
        example: false,
    };
    assert!(matches!(prepare(&a), Prepared::Fail { error: GreetError::InvalidRepeatValue }));
}

#[test]
fn missing_names_is_fatal() {
    let a = RawArgs {
        names: None,
        greetings: Some("Salve".to_string()),
        repeat: 1,
        verbose: false,
        example: false,
    };
    match prepare(&a) {
        Prepared::Fail { error } => {
            assert_eq!(error, GreetError::ArgumentMissing { kind: ListKind::Names });
            assert_eq!(error.message(), "I nomi sono obbligatori.");
        }
        _ => panic!("missing names must be fatal"),
    }
}

#[test]
fn missing_greetings_is_fatal() {
    let a = RawArgs {
        names: Some("Mario".to_string()),
        greetings: None,
        repeat: 1,
        verbose: false,
        example: false,
    };
    match prepare(&a) {
        Prepared::Fail { error } => {
            assert_eq!(error.message(), "I saluti sono obbligatori.");
        }
        _ => panic!("missing greetings must be fatal"),
    }
}

#[test]
fn whitespace_only_list_is_empty() {
    let e = compose(" , ,  ", "Salve", 1, false).expect_err("an all-blank list is empty");
    assert_eq!(e, GreetError::EmptyList { kind: ListKind::Names });
    assert_eq!(
        e.message(),
        "Errore: la lista dei nomi è vuota o contiene solo spazi."
    );
    let e = compose("Mario", " ,, ", 1, false).expect_err("an all-blank list is empty");
    assert_eq!(e, GreetError::EmptyList { kind: ListKind::Greetings });
    assert_eq!(
        e.message(),
        "Errore: la lista dei saluti è vuota o contiene solo spazi."
    );
}

#[test]
fn normalization_trims_and_drops_empties() {
    let toks = normalize_list("  Mario ,  , Anna Maria ,, Luigi  ");
    assert_eq!(toks, vec!["Mario", "Anna Maria", "Luigi"]);
}

#[test]
fn normalization_is_idempotent_on_values() {
    let once = normalize_list(" a , ,b ,, c ");
    let joined = once.join(",");
    let twice = normalize_list(&joined);
    assert_eq!(once, twice);
}

#[test]
fn split_keeps_empty_segments() {
    let segs = split_segments(" a ,, b ");
    assert_eq!(segs, vec!["a", "", "b"]);
    assert_eq!(split_segments(""), vec![""]);
}

#[test]
fn validation_is_fail_fast_in_check_order() {
    // The first failing segment decides, and the character class is checked
    // before the minimum length: the empty second segment fails on its
    // characters even though it is also too short.
    let e = validate_input("Mario,,A", ListKind::Names).expect_err("second segment is bad");
    assert_eq!(e, GreetError::InvalidCharacters { kind: ListKind::Names, token: "".to_string() });
    // A too-short segment earlier in the list wins over a later bad one.
    let e = validate_input("A,@@@", ListKind::Names).expect_err("first segment is bad");
    assert_eq!(e, GreetError::TooShort { kind: ListKind::Names, token: "A".to_string() });
}

#[test]
fn token_length_boundaries() {
    let ok50 = "a".repeat(50);
    assert!(validate_input(&ok50, ListKind::Names).is_ok());
    let bad51 = "a".repeat(51);
    let e = validate_input(&bad51, ListKind::Names).expect_err("over the maximum");
    assert_eq!(e, GreetError::TooLong { kind: ListKind::Names, token: bad51.clone() });
    assert!(validate_input("ab", ListKind::Names).is_ok());
    let e = validate_input("a", ListKind::Names).expect_err("under the minimum");
    assert_eq!(e, GreetError::TooShort { kind: ListKind::Names, token: "a".to_string() });
}

#[test]
fn character_class_accepts_spaces_and_digits_only() {
    assert!(validate_input("Anna Maria 2", ListKind::Names).is_ok());
    assert!(validate_input("José", ListKind::Names).is_err());
    assert!(validate_input("a\tb", ListKind::Names).is_err());
    assert!(validate_input("ab!", ListKind::Greetings).is_err());
}

#[test]
fn rendered_line_shape() {
    assert_eq!(render_line("Salve", "Mario"), "Salve Mario!");
}

#[test]
fn pairing_is_cyclic_on_both_sides() {
    let greetings = vec!["Salve".to_string(), "Ciao".to_string(), "Ehi".to_string()];
    let names = vec!["Mario".to_string(), "Anna".to_string()];
    let lines = render_lines(&greetings, &names, 6);
    assert_eq!(
        lines,
        vec![
            "Salve Mario!",
            "Ciao Anna!",
            "Ehi Mario!",
            "Salve Anna!",
            "Ciao Mario!",
            "Ehi Anna!"
        ]
    );
    assert_eq!(render_output(&lines).lines().count(), 6);
}

#[test]
fn verbose_preamble_lists_both_sequences() {
    let out = compose("Mario,Anna", "Salve,Ciao", 1, true).expect("valid run");
    assert_eq!(
        out.output,
        "Modalità dettagliata attivata.\nRipetizioni del saluto: 1\nSaluti: [\"Salve\", \"Ciao\"]\nNomi: [\"Mario\", \"Anna\"]\nSalve Mario!\n"
    );
}

#[test]
fn decimal_rendering() {
    assert_eq!(usize_to_string(0), "0");
    assert_eq!(usize_to_string(7), "7");
    assert_eq!(usize_to_string(10), "10");
    assert_eq!(usize_to_string(105), "105");
    assert_eq!(usize_to_string(98765), "98765");
}

#[test]
fn warning_names_both_counts() {
    assert_eq!(
        mismatch_warning(3, 12),
        "Attenzione: il numero di nomi (3) e di saluti (12) non corrisponde. Il programma utilizzerà il ciclo per abbinarli."
    );
}

#[test]
fn example_text_is_stable() {
    let text = example_text();
    assert_eq!(
        text,
        "Esempio di utilizzo:\n  cargo run -- --names \"Mario,Anna\" --greetings \"Salve,Ciao\" --repeat 3\n  cargo run -- --names \"Mario,Anna\" --greetings \"Salve,Ciao\" --repeat 3 --output saluti.txt\n"
    );
}
