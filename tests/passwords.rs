use website::password::{
    get_alphanumeric_password, get_custom_password, get_password, get_unicode_password,
    password_from_indices, Dictionary, PasswordError, ASCII_DICTIONARY, READABLE_DICTIONARY,
    SPANISH_DICTIONARY,
};

fn all_dictionaries() -> Vec<Dictionary> {
    Dictionary::all()
}

#[test]
fn password_length_matches_request() {
    let mut rng = rand::rng();
    for dictionary in all_dictionaries() {
        for length in [0i64, 1, 7, 32, 64] {
            let p = get_password(&mut rng, dictionary, "xyz", length).unwrap();
            assert_eq!(p.chars().count(), length as usize, "{:?}", dictionary);
        }
    }
}

#[test]
fn zero_length_gives_empty_password() {
    let mut rng = rand::rng();
    for dictionary in all_dictionaries() {
        assert_eq!(get_password(&mut rng, dictionary, "abc", 0), Ok(String::new()));
    }
}

#[test]
fn empty_custom_dictionary_gives_empty_password() {
    let mut rng = rand::rng();
    assert_eq!(get_password(&mut rng, Dictionary::Custom, "", 32), Ok(String::new()));
    assert_eq!(get_custom_password(&mut rng, "", 10), "");
}

#[test]
fn negative_length_is_rejected() {
    let mut rng = rand::rng();
    for dictionary in all_dictionaries() {
        assert_eq!(get_password(&mut rng, dictionary, "abc", -1), Err(PasswordError::InvalidLength));
        assert_eq!(
            get_password(&mut rng, dictionary, "abc", i64::MIN),
            Err(PasswordError::InvalidLength)
        );
    }
}

#[test]
fn fixed_dictionaries_contain_their_characters() {
    let mut rng = rand::rng();
    for (dictionary, alphabet) in [
        (Dictionary::Ascii, ASCII_DICTIONARY),
        (Dictionary::Readable, READABLE_DICTIONARY),
        (Dictionary::SpanishKeyboard, SPANISH_DICTIONARY),
    ] {
        let p = get_password(&mut rng, dictionary, "", 500).unwrap();
        assert_eq!(p.chars().count(), 500);
        assert!(p.chars().all(|c| alphabet.contains(c)), "{:?}: {}", dictionary, p);
    }
}

#[test]
fn custom_dictionary_contains_its_characters() {
    let mut rng = rand::rng();
    let p = get_password(&mut rng, Dictionary::Custom, "ab€", 200).unwrap();
    assert_eq!(p.chars().count(), 200);
    assert!(p.chars().all(|c| c == 'a' || c == 'b' || c == '€'));
    let p = get_custom_password(&mut rng, "z", 5);
    assert_eq!(p, "zzzzz");
}

#[test]
fn readable_dictionary_leaves_out_ambiguous_characters() {
    let mut rng = rand::rng();
    let p = get_password(&mut rng, Dictionary::Readable, "", 2000).unwrap();
    for c in ['l', 'I', 'O', '0', '1'] {
        assert!(!p.contains(c));
    }
}

#[test]
fn fixed_alphabets_have_expected_sizes() {
    assert_eq!(ASCII_DICTIONARY.chars().count(), 94);
    assert_eq!(READABLE_DICTIONARY.chars().count(), 57);
    assert!(SPANISH_DICTIONARY.contains('ñ'));
    assert!(SPANISH_DICTIONARY.contains('Ç'));
}

#[test]
fn alphanumeric_password_has_letters_and_digits_only() {
    let mut rng = rand::rng();
    let p = get_alphanumeric_password(&mut rng, 300);
    assert_eq!(p.len(), 300);
    assert!(p.chars().all(|c| c.is_ascii_alphanumeric()));
    let p = get_password(&mut rng, Dictionary::Alphanumeric, "", 40).unwrap();
    assert!(p.chars().all(|c| c.is_ascii_alphanumeric()));
}

#[test]
fn alphanumeric_distribution_is_roughly_uniform() {
    let mut rng = rand::rng();
    let n = 10_000usize;
    let p = get_alphanumeric_password(&mut rng, n);
    let symbols: Vec<char> = ('a'..='z').chain('A'..='Z').chain('0'..='9').collect();
    assert_eq!(symbols.len(), 62);
    let expected = n as f64 / 62.0;
    let mut chi_square = 0.0f64;
    for s in &symbols {
        let count = p.chars().filter(|c| c == s).count() as f64;
        assert!(count > 0.0, "symbol {} never drawn", s);
        chi_square += (count - expected) * (count - expected) / expected;
    }
    // 61 degrees of freedom: the mean is 61; 150 is far in the tail.
    assert!(chi_square < 150.0, "chi-square {}", chi_square);
}

#[test]
fn unicode_password_counts_scalar_values() {
    let mut rng = rand::rng();
    for length in [0usize, 1, 2, 3, 4, 5, 17, 64, 300] {
        let p = get_unicode_password(&mut rng, length);
        assert_eq!(p.chars().count(), length);
    }
    let p = get_password(&mut rng, Dictionary::Unicode, "", 64).unwrap();
    assert_eq!(p.chars().count(), 64);
}

#[test]
fn password_from_indices_picks_each_index() {
    let alphabet = vec!['a', 'b', 'c'];
    assert_eq!(password_from_indices(&alphabet, &vec![2, 0, 1, 2]), "cabc");
    assert_eq!(password_from_indices(&alphabet, &vec![]), "");
}

#[test]
fn dictionary_names_round_trip() {
    for dictionary in all_dictionaries() {
        assert_eq!(Dictionary::from_name(&dictionary.name()), dictionary);
    }
    assert_eq!(Dictionary::Ascii.name(), "ASCII");
    assert_eq!(Dictionary::SpanishKeyboard.name(), "Spanish Keyboard");
}

#[test]
fn unknown_dictionary_name_selects_ascii() {
    assert_eq!(Dictionary::from_name("Klingon"), Dictionary::Ascii);
    assert_eq!(Dictionary::from_name("ascii"), Dictionary::Ascii);
    assert_eq!(Dictionary::from_name(""), Dictionary::Ascii);
}

#[test]
fn all_dictionaries_in_order() {
    assert_eq!(
        Dictionary::all(),
        vec![
            Dictionary::Readable,
            Dictionary::Alphanumeric,
            Dictionary::Ascii,
            Dictionary::SpanishKeyboard,
            Dictionary::Unicode,
            Dictionary::Custom,
        ]
    );
}

#[test]
fn dictionary_from_name_conversion() {
    assert_eq!(Dictionary::from("Spanish Keyboard"), Dictionary::SpanishKeyboard);
    let unknown: Dictionary = "nothing".into();
    assert_eq!(unknown, Dictionary::Ascii);
}
