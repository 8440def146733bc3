//! The names that the library gives to key files and to archive entries.

use vstd::prelude::*;
use vstd::string::*;

verus! {

/// The character of a decimal digit.
pub open spec fn digit(d: nat) -> char
    recommends
        d < 10,
{
    if d == 0 {
        '0'
    } else if d == 1 {
        '1'
    } else if d == 2 {
        '2'
    } else if d == 3 {
        '3'
    } else if d == 4 {
        '4'
    } else if d == 5 {
        '5'
    } else if d == 6 {
        '6'
    } else if d == 7 {
        '7'
    } else if d == 8 {
        '8'
    } else {
        '9'
    }
}

/// `n` in decimal, without leading zeros.
pub open spec fn decimal(n: nat) -> Seq<char>
    decreases n,
{
    if n < 10 {
        seq![digit(n)]
    } else {
        decimal(n / 10).push(digit(n % 10))
    }
}

/// `"parts/"`, the directory of the chunk entries.
pub open spec fn parts_directory() -> Seq<char> {
    seq!['p', 'a', 'r', 't', 's', '/']
}

/// `"README.md"`, the entry that carries no ciphertext.
pub open spec fn readme_name() -> Seq<char> {
    seq!['R', 'E', 'A', 'D', 'M', 'E', '.', 'm', 'd']
}

/// `".PRIV.pem"`.
pub open spec fn private_suffix() -> Seq<char> {
    seq!['.', 'P', 'R', 'I', 'V', '.', 'p', 'e', 'm']
}

/// `".PUB.pem"`.
pub open spec fn public_suffix() -> Seq<char> {
    seq!['.', 'P', 'U', 'B', '.', 'p', 'e', 'm']
}

/// Name of the entry that holds chunk `number` of the output `output`:
/// `parts/{output}.{number}`.
pub open spec fn entry_name(output: Seq<char>, number: nat) -> Seq<char> {
    parts_directory() + output + seq!['.'] + decimal(number)
}

/// The numeral of one decimal digit.
fn digit_text(d: usize) -> (text: &'static str)
    requires
        d < 10,
    ensures
        text@ == seq![digit(d as nat)],
{
    proof {
        reveal_strlit("0");
        reveal_strlit("1");
        reveal_strlit("2");
        reveal_strlit("3");
        reveal_strlit("4");
        reveal_strlit("5");
        reveal_strlit("6");
        reveal_strlit("7");
        reveal_strlit("8");
        reveal_strlit("9");
    }
    if d == 0 {
        "0"
    } else if d == 1 {
        "1"
    } else if d == 2 {
        "2"
    } else if d == 3 {
        "3"
    } else if d == 4 {
        "4"
    } else if d == 5 {
        "5"
    } else if d == 6 {
        "6"
    } else if d == 7 {
        "7"
    } else if d == 8 {
        "8"
    } else {
        "9"
    }
}

/// Writes `n` in decimal.
pub fn decimal_text(n: usize) -> (text: String)
    ensures
        text@ == decimal(n as nat),
    decreases n,
{
    if n < 10 {
        String::from_str(digit_text(n))
    } else {
        let mut text = decimal_text(n / 10);
        text.append(digit_text(n % 10));
        text
    }
}

/// File name of the private key of the pair called `name`.
pub fn private_key_file_name(name: &str) -> (file: String)
    ensures
        file@ == name@ + private_suffix(),
{
    proof {
        reveal_strlit(".PRIV.pem");
    }
    let mut file = String::from_str(name);
    file.append(".PRIV.pem");
    file
}

/// File name of the public key of the pair called `name`.
pub fn public_key_file_name(name: &str) -> (file: String)
    ensures
        file@ == name@ + public_suffix(),
{
    proof {
        reveal_strlit(".PUB.pem");
    }
    let mut file = String::from_str(name);
    file.append(".PUB.pem");
    file
}

/// The directory entry that precedes the chunks: `"parts/"`.
pub fn parts_directory_name() -> (name: &'static str)
    ensures
        name@ == parts_directory(),
{
    proof {
        reveal_strlit("parts/");
    }
    "parts/"
}

/// Whether `name` is `"README.md"`.
pub fn is_readme(name: &str) -> (yes: bool)
    ensures
        yes == (name@ == readme_name()),
{
    proof {
        reveal_strlit("README.md");
    }
    assert("README.md"@ =~= readme_name());
    String::from_str(name) == String::from_str("README.md")
}

/// Name of the archive entry for chunk `number` of the output `output`.
pub fn entry_name_text(output: &str, number: usize) -> (name: String)
    ensures
        name@ == entry_name(output@, number as nat),
{
    proof {
        reveal_strlit(".");
    }
    let mut name = String::from_str(parts_directory_name());
    name.append(output);
    name.append(".");
    let digits = decimal_text(number);
    name.append(digits.as_str());
    name
}

/// An entry name never ends in a path separator and never is the name of
/// the entry without ciphertext, whatever the output is called.
pub proof fn lemma_entry_name_is_a_file(output: Seq<char>, number: nat)
    ensures
        entry_name(output, number).len() > 0,
        entry_name(output, number).last() != '/',
        entry_name(output, number).last() != '\\',
        entry_name(output, number) != readme_name(),
{
    lemma_decimal_ends_in_digit(number);
}

/// A decimal numeral is not empty and ends in a digit.
pub proof fn lemma_decimal_ends_in_digit(n: nat)
    ensures
        decimal(n).len() > 0,
        decimal(n).last() == digit(n % 10),
    decreases n,
{
    if n >= 10 {
        lemma_decimal_ends_in_digit(n / 10);
    }
}

} // verus!
