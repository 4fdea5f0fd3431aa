//! Deterministic generation.
//!
//! Without hardware attestation a provider cannot prove how inference was run. At
//! temperature zero with a fixed seed two providers that run the same model on the
//! same input should give the same output, so a verifier can run the inference again
//! and compare hashes. The operator turns this on by two settings:
//!
//! | Setting | Default | Meaning |
//! |---|---|---|
//! | `COCORE_DETERMINISTIC` | unset (off) | `1`, `true` or `yes` to enable |
//! | `COCORE_DETERMINISTIC_SEED` | `42` | the seed sent to the backend |

use crate::text::{
    ascii_lower, blank, chars_of, decimal, law_trimmed, law_unsigned, law_written_reads_back,
    lemma_decimal_digits, parse_u64, same, to_ascii_lower, trim, trimmed, unsigned, whitespace,
    written,
};
use vstd::prelude::*;

verus! {

/// The seed where the operator sets none.
pub const DEFAULT_SEED: u64 = 42;

/// Whether a setting says yes, in upper or lower case and with white space around it.
pub open spec fn says_yes(setting: Option<&str>) -> bool {
    match setting {
        Some(v) => {
            let word = ascii_lower(trimmed(v@));
            word == "1"@ || word == "true"@ || word == "yes"@
        },
        None => false,
    }
}

/// The seed that a setting gives: the number that it writes, with white space around
/// it, and the default where it writes none.
pub open spec fn seed_of(setting: Option<&str>) -> nat {
    match setting {
        Some(v) => match unsigned(trimmed(v@), u64::MAX as nat) {
            Some(n) => n,
            None => DEFAULT_SEED as nat,
        },
        None => DEFAULT_SEED as nat,
    }
}

/// The temperature, in thousandths, and the seed for a generation, by the operator's
/// settings. Neither is given where the mode is off: the backend then uses its own
/// defaults.
pub fn params(deterministic: Option<&str>, seed: Option<&str>) -> (r: (Option<u32>, Option<u64>))
    ensures
        says_yes(deterministic) ==> r.0 == Some(0u32) && r.1 is Some && r.1->0 == seed_of(seed),
        !says_yes(deterministic) ==> r == (None::<u32>, None::<u64>),
{
    let on = match deterministic {
        Some(v) => {
            let chars = chars_of(v);
            let word = to_ascii_lower(trim(chars.as_slice()));
            same(word.as_slice(), chars_of("1").as_slice()) || same(
                word.as_slice(),
                chars_of("true").as_slice(),
            ) || same(word.as_slice(), chars_of("yes").as_slice())
        },
        None => false,
    };
    if !on {
        return (None, None);
    }
    let s: u64 = match seed {
        Some(v) => {
            let chars = chars_of(v);
            match parse_u64(trim(chars.as_slice())) {
                Some(n) => n,
                None => DEFAULT_SEED,
            }
        },
        None => DEFAULT_SEED,
    };
    (Some(0), Some(s))
}

// -- Laws --

/// The mode is off where nothing is set. A setting turns it on exactly where, but for the
/// white space around it and for upper or lower case, it is `1`, `true` or `yes`.
pub proof fn law_what_turns_it_on(v: &str, before: Seq<char>, word: Seq<char>, behind: Seq<char>)
    requires
        v@ == before + word + behind,
        blank(before),
        blank(behind),
        word.len() > 0 ==> !whitespace(word.first()) && !whitespace(word.last()),
    ensures
        !says_yes(None),
        says_yes(Some(v)) <==> ascii_lower(word) == "1"@ || ascii_lower(word) == "true"@
            || ascii_lower(word) == "yes"@,
{
    law_trimmed(before, word, behind);
}

/// The seed is the number that the setting writes, with white space around it and a plus sign
/// before it or not.
pub proof fn law_seed_is_read(v: &str, before: Seq<char>, n: nat, behind: Seq<char>)
    requires
        blank(before),
        blank(behind),
        n <= u64::MAX,
    ensures
        v@ == before + written(n) + behind ==> seed_of(Some(v)) == n,
        v@ == before + (seq!['+'] + written(n)) + behind ==> seed_of(Some(v)) == n,
{
    let digits = written(n);
    law_written_reads_back(n);
    lemma_decimal_digits(digits);
    lemma_last_digit(digits);
    law_trimmed(before, digits, behind);
    law_trimmed(before, seq!['+'] + digits, behind);
    law_unsigned(digits, u64::MAX as nat);
}

/// A row of digits ends with a digit.
proof fn lemma_last_digit(s: Seq<char>)
    requires
        decimal(s) is Some,
    ensures
        s.len() > 0,
        '0' <= s.last() <= '9',
{
}

/// Where no seed is set, or what is set writes no number that there is room for, with a plus
/// sign or without, the seed is 42.
pub proof fn law_default_seed(
    v: &str,
    before: Seq<char>,
    signed: bool,
    word: Seq<char>,
    behind: Seq<char>,
)
    requires
        v@ == before + (if signed {
            seq!['+'] + word
        } else {
            word
        }) + behind,
        blank(before),
        blank(behind),
        word.len() > 0 ==> (signed || !whitespace(word.first())) && !whitespace(word.last()),
        word.len() > 0 ==> signed || word.first() != '+',
        match decimal(word) {
            Some(n) => n > u64::MAX,
            None => true,
        },
    ensures
        seed_of(None) == 42,
        seed_of(Some(v)) == 42,
{
    law_trimmed(
        before,
        if signed {
            seq!['+'] + word
        } else {
            word
        },
        behind,
    );
    law_unsigned(word, u64::MAX as nat);
}

} // verus!
