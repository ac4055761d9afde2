//! Random passwords drawn from a choice of character sets.
use vstd::prelude::*;

use rand::distr::{Alphanumeric, SampleString};
use rand::rngs::ThreadRng;
use rand::Rng;

use crate::text::{chars_of, str_eq, lemma_utf8_len_at_least_chars, utf8_len};

verus! {

/// rand's `ThreadRng`, the source of randomness that the drawing functions
/// take; it is only handed on to rand's own calls.
#[verifier::external_type_specification]
#[verifier::external_body]
pub struct ExThreadRng(ThreadRng);

/// Printable ASCII: letters, digits and punctuation.
pub const ASCII_DICTIONARY: &'static str = "abcdefghijklmnopqrstuvwxyzABCDEFGHIJKLMNOPQRSTUVWXYZ1234567890!\"#$%&'()*+,-./:;<=>?@[\\]^_`{|}~";

/// Letters and digits that are hard to mistake for one another.
pub const READABLE_DICTIONARY: &'static str = "abcdefghijkmnopqrstuvwxyzABCDEFGHJKLMNPQRSTUVWXYZ23456789";

/// The characters of a Spanish keyboard.
pub const SPANISH_DICTIONARY: &'static str = "qwertyuiopasdfghjklñçzxcvbnm1234567890QWERTYUIOPASDFGHJKLÑÇZXCVBNM,.;:-_^*+[]{}!|\\\"@·#$%&/()=?¿?'¡àèìòùÀÈÌÒÙÁÉÍÓÚáéíóú<>";

/// A named set of characters that passwords are drawn from.
#[derive(Clone, Copy, Debug, PartialEq, Eq, Structural)]
pub enum Dictionary {
    Readable,
    Alphanumeric,
    Ascii,
    SpanishKeyboard,
    /// Any Unicode scalar value.
    Unicode,
    /// The characters that the user supplies.
    Custom,
}

/// Why no password was made.
#[derive(Clone, Copy, Debug, PartialEq, Eq, Structural)]
pub enum PasswordError {
    /// The requested length is negative.
    InvalidLength,
}

pub open spec fn is_ascii_alphanumeric(c: char) -> bool {
    ||| ('a' <= c && c <= 'z')
    ||| ('A' <= c && c <= 'Z')
    ||| ('0' <= c && c <= '9')
}

/// Whether `c` may stand in a password drawn from `dictionary`, where
/// `custom` holds the characters of a custom dictionary.
pub open spec fn allowed_char(dictionary: Dictionary, custom: Seq<char>, c: char) -> bool {
    match dictionary {
        Dictionary::Readable => READABLE_DICTIONARY@.contains(c),
        Dictionary::Alphanumeric => is_ascii_alphanumeric(c),
        Dictionary::Ascii => ASCII_DICTIONARY@.contains(c),
        Dictionary::SpanishKeyboard => SPANISH_DICTIONARY@.contains(c),
        Dictionary::Unicode => true,
        Dictionary::Custom => custom.contains(c),
    }
}

/// The length of a password of `length` characters from `dictionary`: a
/// custom dictionary without characters gives the empty password.
pub open spec fn password_len(dictionary: Dictionary, custom: Seq<char>, length: nat) -> nat {
    if dictionary == Dictionary::Custom && custom.len() == 0 {
        0
    } else {
        length
    }
}

/// Whether `p` is a password of `length` characters drawn from `dictionary`.
pub open spec fn is_password(
    dictionary: Dictionary,
    custom: Seq<char>,
    length: nat,
    p: Seq<char>,
) -> bool {
    &&& p.len() == password_len(dictionary, custom, length)
    &&& forall|i: int| 0 <= i < p.len() ==> allowed_char(dictionary, custom, #[trigger] p[i])
}

/// None of the fixed dictionaries is empty.
proof fn lemma_fixed_dictionaries_not_empty()
    ensures
        ASCII_DICTIONARY@.len() > 0,
        READABLE_DICTIONARY@.len() > 0,
        SPANISH_DICTIONARY@.len() > 0,
{
    reveal_strlit("abcdefghijklmnopqrstuvwxyzABCDEFGHIJKLMNOPQRSTUVWXYZ1234567890!\"#$%&'()*+,-./:;<=>?@[\\]^_`{|}~");
    reveal_strlit("abcdefghijkmnopqrstuvwxyzABCDEFGHJKLMNPQRSTUVWXYZ23456789");
    reveal_strlit("qwertyuiopasdfghjklñçzxcvbnm1234567890QWERTYUIOPASDFGHJKLÑÇZXCVBNM,.;:-_^*+[]{}!|\\\"@·#$%&/()=?¿?'¡àèìòùÀÈÌÒÙÁÉÍÓÚáéíóú<>");
}

/// The name under which a dictionary is offered to the user.
pub open spec fn dictionary_name(dictionary: Dictionary) -> Seq<char> {
    match dictionary {
        Dictionary::Readable => "Readable"@,
        Dictionary::Alphanumeric => "Alphanumeric"@,
        Dictionary::Ascii => "ASCII"@,
        Dictionary::SpanishKeyboard => "Spanish Keyboard"@,
        Dictionary::Unicode => "Unicode"@,
        Dictionary::Custom => "Custom"@,
    }
}

/// The dictionary of a given name; an unknown name selects ASCII.
pub open spec fn dictionary_named(name: Seq<char>) -> Dictionary {
    if name == "Readable"@ {
        Dictionary::Readable
    } else if name == "Alphanumeric"@ {
        Dictionary::Alphanumeric
    } else if name == "ASCII"@ {
        Dictionary::Ascii
    } else if name == "Spanish Keyboard"@ {
        Dictionary::SpanishKeyboard
    } else if name == "Unicode"@ {
        Dictionary::Unicode
    } else if name == "Custom"@ {
        Dictionary::Custom
    } else {
        Dictionary::Ascii
    }
}

/// Every dictionary is found again under its name.
pub proof fn lemma_dictionary_named(dictionary: Dictionary)
    ensures
        dictionary_named(dictionary_name(dictionary)) == dictionary,
{
    reveal_strlit("Readable");
    reveal_strlit("Alphanumeric");
    reveal_strlit("ASCII");
    reveal_strlit("Spanish Keyboard");
    reveal_strlit("Unicode");
    reveal_strlit("Custom");
    // The six names differ in length, so each is told apart from the others.
    assert(dictionary_name(dictionary).len() == match dictionary {
        Dictionary::Readable => 8int,
        Dictionary::Alphanumeric => 12,
        Dictionary::Ascii => 5,
        Dictionary::SpanishKeyboard => 16,
        Dictionary::Unicode => 7,
        Dictionary::Custom => 6,
    });
}

impl Dictionary {
    /// Every dictionary, in the order in which they are offered.
    pub fn all() -> (r: Vec<Dictionary>)
        ensures
            r@ == seq![
                Dictionary::Readable,
                Dictionary::Alphanumeric,
                Dictionary::Ascii,
                Dictionary::SpanishKeyboard,
                Dictionary::Unicode,
                Dictionary::Custom,
            ],
    {
        vec![
            Dictionary::Readable,
            Dictionary::Alphanumeric,
            Dictionary::Ascii,
            Dictionary::SpanishKeyboard,
            Dictionary::Unicode,
            Dictionary::Custom,
        ]
    }

    /// The dictionary of a given name; an unknown name selects ASCII.
    pub fn from_name(name: &str) -> (r: Dictionary)
        ensures
            r == dictionary_named(name@),
    {
        if str_eq(name, "Readable") {
            Dictionary::Readable
        } else if str_eq(name, "Alphanumeric") {
            Dictionary::Alphanumeric
        } else if str_eq(name, "ASCII") {
            Dictionary::Ascii
        } else if str_eq(name, "Spanish Keyboard") {
            Dictionary::SpanishKeyboard
        } else if str_eq(name, "Unicode") {
            Dictionary::Unicode
        } else if str_eq(name, "Custom") {
            Dictionary::Custom
        } else {
            Dictionary::Ascii
        }
    }

    /// The name under which this dictionary is offered to the user.
    pub fn name(self) -> (r: String)
        ensures
            r@ == dictionary_name(self),
    {
        match self {
            Dictionary::Readable => String::from_str("Readable"),
            Dictionary::Alphanumeric => String::from_str("Alphanumeric"),
            Dictionary::Ascii => String::from_str("ASCII"),
            Dictionary::SpanishKeyboard => String::from_str("Spanish Keyboard"),
            Dictionary::Unicode => String::from_str("Unicode"),
            Dictionary::Custom => String::from_str("Custom"),
        }
    }
}

impl<'a> From<&'a str> for Dictionary {
    /// The dictionary of a given name; an unknown name selects ASCII.
    fn from(name: &'a str) -> (r: Dictionary) {
        Dictionary::from_name(name)
    }
}

impl<'a> vstd::std_specs::convert::FromSpecImpl<&'a str> for Dictionary {
    open spec fn obeys_from_spec() -> bool {
        true
    }

    open spec fn from_spec(name: &'a str) -> Dictionary {
        dictionary_named(name@)
    }
}

/// Relies on `Rng::random_range`: on a non-empty range `0..bound` it returns
/// a value of the range (it panics on an empty one).
#[verifier::external_body]
fn random_index(rng: &mut ThreadRng, bound: usize) -> (r: usize)
    requires
        bound > 0,
    ensures
        r < bound,
{
    rng.random_range(0..bound)
}

/// Relies on `Alphanumeric::sample_string`: `len` characters, each an ASCII
/// letter or digit (it panics when `len` bytes exceed what a `Vec` may hold).
#[verifier::external_body]
fn sample_alphanumeric(rng: &mut ThreadRng, len: usize) -> (r: String)
    requires
        len <= isize::MAX,
    ensures
        r@.len() == len,
        forall|i: int| 0 <= i < r@.len() ==> is_ascii_alphanumeric(#[trigger] r@[i]),
{
    Alphanumeric.sample_string(rng, len)
}

/// Relies on `rand_utf8::rand_utf8`: a string whose UTF-8 encoding takes
/// exactly `byte_len` bytes (it first reserves room for `byte_len`
/// characters, and panics when that exceeds what a `Vec` may hold).
#[verifier::external_body]
fn random_utf8(rng: &mut ThreadRng, byte_len: usize) -> (r: String)
    requires
        byte_len * 4 <= isize::MAX,
    ensures
        utf8_len(r@) == byte_len,
{
    rand_utf8::rand_utf8(rng, byte_len).into_string()
}


/// The password that picks, for each index in turn, the character of
/// `alphabet` at that index.
pub fn password_from_indices(alphabet: &Vec<char>, indices: &Vec<usize>) -> (r: String)
    requires
        forall|i: int| 0 <= i < indices@.len() ==> #[trigger] indices@[i] < alphabet@.len(),
    ensures
        r@ == indices@.map_values(|k: usize| alphabet@[k as int]),
{
    let mut r = String::new();
    let mut i: usize = 0;
    while i < indices.len()
        invariant
            i <= indices@.len(),
            forall|j: int| 0 <= j < indices@.len() ==> #[trigger] indices@[j] < alphabet@.len(),
            r@ == indices@.subrange(0, i as int).map_values(|k: usize| alphabet@[k as int]),
        decreases indices@.len() - i,
    {
        r.push(alphabet[indices[i]]);
        i = i + 1;
        assert(r@ =~= indices@.subrange(0, i as int).map_values(|k: usize| alphabet@[k as int]));
    }
    assert(indices@.subrange(0, i as int) == indices@);
    r
}

/// `count` random indices below `bound`.
fn random_indices(rng: &mut ThreadRng, bound: usize, count: usize) -> (r: Vec<usize>)
    requires
        bound > 0,
    ensures
        r@.len() == count,
        forall|i: int| 0 <= i < r@.len() ==> #[trigger] r@[i] < bound,
{
    let mut r: Vec<usize> = Vec::new();
    let mut i: usize = 0;
    while i < count
        invariant
            bound > 0,
            i <= count,
            r@.len() == i,
            forall|j: int| 0 <= j < r@.len() ==> #[trigger] r@[j] < bound,
        decreases count - i,
    {
        let k = random_index(rng, bound);
        r.push(k);
        i = i + 1;
    }
    r
}

/// A password of `number_of_characters` characters, each drawn uniformly
/// from `custom_dictionary`; the empty password when the dictionary is empty.
pub fn get_custom_password(
    rng: &mut ThreadRng,
    custom_dictionary: &str,
    number_of_characters: usize,
) -> (r: String)
    ensures
        custom_dictionary@.len() == 0 ==> r@.len() == 0,
        custom_dictionary@.len() > 0 ==> r@.len() == number_of_characters,
        forall|i: int| 0 <= i < r@.len() ==> custom_dictionary@.contains(#[trigger] r@[i]),
{
    let alphabet = chars_of(custom_dictionary);
    if alphabet.len() == 0 {
        return String::new();
    }
    let indices = random_indices(rng, alphabet.len(), number_of_characters);
    let r = password_from_indices(&alphabet, &indices);
    assert forall|i: int| 0 <= i < r@.len() implies custom_dictionary@.contains(#[trigger] r@[i]) by {
        assert(r@[i] == alphabet@[indices@[i] as int]);
    }
    r
}

/// A password of `number_of_characters` ASCII letters and digits.
pub fn get_alphanumeric_password(rng: &mut ThreadRng, number_of_characters: usize) -> (r: String)
    requires
        number_of_characters <= isize::MAX,
    ensures
        r@.len() == number_of_characters,
        forall|i: int| 0 <= i < r@.len() ==> is_ascii_alphanumeric(#[trigger] r@[i]),
{
    sample_alphanumeric(rng, number_of_characters)
}

/// A password of `number_of_characters` random Unicode scalar values.
pub fn get_unicode_password(rng: &mut ThreadRng, number_of_characters: usize) -> (r: String)
    requires
        number_of_characters * 4 <= isize::MAX,
    ensures
        r@.len() == number_of_characters,
{
    let mut r = String::new();
    let mut remaining: usize = number_of_characters;
    while remaining > 0
        invariant
            r@.len() + remaining == number_of_characters,
            number_of_characters * 4 <= isize::MAX,
        decreases remaining,
    {
        let piece = random_utf8(rng, remaining);
        proof {
            lemma_utf8_len_at_least_chars(piece@);
        }
        let taken = piece.as_str().unicode_len();
        r.append(piece.as_str());
        remaining = remaining - taken;
    }
    r
}

/// A password of `number_of_characters` characters drawn from `dictionary`;
/// `custom_dictionary` holds the characters of the custom dictionary.
pub fn get_password(
    rng: &mut ThreadRng,
    dictionary: Dictionary,
    custom_dictionary: &str,
    number_of_characters: i64,
) -> (r: Result<String, PasswordError>)
    requires
        number_of_characters <= usize::MAX,
        dictionary == Dictionary::Alphanumeric ==> number_of_characters <= isize::MAX,
        dictionary == Dictionary::Unicode ==> number_of_characters * 4 <= isize::MAX,
    ensures
        number_of_characters < 0 ==> r == Err::<String, PasswordError>(PasswordError::InvalidLength),
        number_of_characters >= 0 ==> (r matches Ok(p) && is_password(
            dictionary,
            custom_dictionary@,
            number_of_characters as nat,
            p@,
        )),
{
    if number_of_characters < 0 {
        return Err(PasswordError::InvalidLength);
    }
    let n = number_of_characters as usize;
    proof {
        lemma_fixed_dictionaries_not_empty();
    }
    let p = match dictionary {
        Dictionary::Alphanumeric => get_alphanumeric_password(rng, n),
        Dictionary::Ascii => get_custom_password(rng, ASCII_DICTIONARY, n),
        Dictionary::Readable => get_custom_password(rng, READABLE_DICTIONARY, n),
        Dictionary::SpanishKeyboard => get_custom_password(rng, SPANISH_DICTIONARY, n),
        Dictionary::Unicode => get_unicode_password(rng, n),
        Dictionary::Custom => get_custom_password(rng, custom_dictionary, n),
    };
    Ok(p)
}

} // verus!
