//! ECMAScript target versions.

use vstd::prelude::*;
use crate::errors::{JSMeldError, JSMeldResult};
use crate::text::{
    all_ascii, ascii_lower, ascii_lowercase, ascii_upper, ascii_uppercase, concat_str, decimal_digits, str_equal,
    to_lowercase, unicode_lowercase,
};

verus! {

/// The ECMAScript version that output is generated for.
#[derive(Debug, Clone, Copy, PartialEq, Eq, Structural)]
pub enum EsTarget {
    Es3,
    Es5,
    Es2015,
    Es2016,
    Es2017,
    Es2018,
    Es2019,
    Es2020,
    Es2021,
    Es2022,
    Es2023,
    Es2024,
    EsNext,
}

/// The target that a lower-case version name stands for, if any.
pub open spec fn es_target_named(name: Seq<char>) -> Option<EsTarget> {
    if name == "es3"@ {
        Some(EsTarget::Es3)
    } else if name == "es5"@ {
        Some(EsTarget::Es5)
    } else if name == "es2015"@ || name == "es6"@ {
        Some(EsTarget::Es2015)
    } else if name == "es2016"@ {
        Some(EsTarget::Es2016)
    } else if name == "es2017"@ {
        Some(EsTarget::Es2017)
    } else if name == "es2018"@ {
        Some(EsTarget::Es2018)
    } else if name == "es2019"@ {
        Some(EsTarget::Es2019)
    } else if name == "es2020"@ {
        Some(EsTarget::Es2020)
    } else if name == "es2021"@ {
        Some(EsTarget::Es2021)
    } else if name == "es2022"@ {
        Some(EsTarget::Es2022)
    } else if name == "es2023"@ {
        Some(EsTarget::Es2023)
    } else if name == "es2024"@ {
        Some(EsTarget::Es2024)
    } else if name == "esnext"@ {
        Some(EsTarget::EsNext)
    } else {
        None
    }
}

/// The target that a version name selects, its case ignored: the name is
/// lower-cased (the ASCII mapping for an all-ASCII name, Unicode's otherwise)
/// and looked up.
pub open spec fn es_target_of(s: Seq<char>) -> Option<EsTarget> {
    if all_ascii(s) {
        es_target_named(ascii_lowercase(s))
    } else {
        es_target_named(unicode_lowercase(s))
    }
}

/// The text of the error for a version name that selects no target.
pub open spec fn unknown_version_message(s: Seq<char>) -> Seq<char> {
    "Unknown ES version: "@ + s
}

/// Looks up a lower-case version name.
pub fn es_target_from_name(name: &str) -> (r: Option<EsTarget>)
    ensures
        r == es_target_named(name@),
{
    if str_equal(name, "es3") {
        Some(EsTarget::Es3)
    } else if str_equal(name, "es5") {
        Some(EsTarget::Es5)
    } else if str_equal(name, "es2015") || str_equal(name, "es6") {
        Some(EsTarget::Es2015)
    } else if str_equal(name, "es2016") {
        Some(EsTarget::Es2016)
    } else if str_equal(name, "es2017") {
        Some(EsTarget::Es2017)
    } else if str_equal(name, "es2018") {
        Some(EsTarget::Es2018)
    } else if str_equal(name, "es2019") {
        Some(EsTarget::Es2019)
    } else if str_equal(name, "es2020") {
        Some(EsTarget::Es2020)
    } else if str_equal(name, "es2021") {
        Some(EsTarget::Es2021)
    } else if str_equal(name, "es2022") {
        Some(EsTarget::Es2022)
    } else if str_equal(name, "es2023") {
        Some(EsTarget::Es2023)
    } else if str_equal(name, "es2024") {
        Some(EsTarget::Es2024)
    } else if str_equal(name, "esnext") {
        Some(EsTarget::EsNext)
    } else {
        None
    }
}

/// Parses an ECMAScript version name such as `"es2020"`, `"ES6"` or
/// `"esnext"`, its case ignored.
pub fn parse_es_version(s: String) -> (r: JSMeldResult<EsTarget>)
    ensures
        es_target_of(s@) matches Some(t) ==> r == Ok::<EsTarget, JSMeldError>(t),
        es_target_of(s@) is None ==> (r matches Err(JSMeldError::ConfigError(m))
            && m@ == unknown_version_message(s@)),
{
    let lower = to_lowercase(s.as_str());
    match es_target_from_name(lower.as_str()) {
        Some(t) => Ok(t),
        None => Err(JSMeldError::ConfigError(concat_str("Unknown ES version: ", s.as_str()))),
    }
}

/// The number of the edition that a target stands for: 3 and 5 for the early
/// editions, the year from ES2015 on; the moving `EsNext` target has none.
pub open spec fn edition_number(t: EsTarget) -> Option<nat> {
    match t {
        EsTarget::Es3 => Some(3),
        EsTarget::Es5 => Some(5),
        EsTarget::Es2015 => Some(2015),
        EsTarget::Es2016 => Some(2016),
        EsTarget::Es2017 => Some(2017),
        EsTarget::Es2018 => Some(2018),
        EsTarget::Es2019 => Some(2019),
        EsTarget::Es2020 => Some(2020),
        EsTarget::Es2021 => Some(2021),
        EsTarget::Es2022 => Some(2022),
        EsTarget::Es2023 => Some(2023),
        EsTarget::Es2024 => Some(2024),
        EsTarget::EsNext => None,
    }
}

/// A version name names an edition by its number: `"es"` followed by the
/// number of edition 3, 5 or any year from 2015 to 2024 selects the target of
/// that very edition, not an earlier or later one.
pub proof fn lemma_version_names_name_editions(n: nat)
    requires
        n == 3 || n == 5 || (2015 <= n && n <= 2024),
    ensures
        es_target_named("es"@ + decimal_digits(n)) matches Some(t) && edition_number(t) == Some(n),
        es_target_of("es"@ + decimal_digits(n)) == es_target_named("es"@ + decimal_digits(n)),
{
    reveal_strlit("es");
    reveal_strlit("es3");
    reveal_strlit("es5");
    reveal_strlit("es6");
    reveal_strlit("es2015");
    reveal_strlit("es2016");
    reveal_strlit("es2017");
    reveal_strlit("es2018");
    reveal_strlit("es2019");
    reveal_strlit("es2020");
    reveal_strlit("es2021");
    reveal_strlit("es2022");
    reveal_strlit("es2023");
    reveal_strlit("es2024");
    reveal_strlit("esnext");
    assert("es3"@.len() == 3 && "es3"@[2] == '3');
    assert("es5"@.len() == 3 && "es5"@[2] == '5');
    assert("es6"@.len() == 3 && "es6"@[2] == '6');
    assert("es2015"@.len() == 6 && "es2015"@[2] == '2' && "es2015"@[3] == '0' && "es2015"@[4] == '1' && "es2015"@[5] == '5');
    assert("es2016"@.len() == 6 && "es2016"@[2] == '2' && "es2016"@[3] == '0' && "es2016"@[4] == '1' && "es2016"@[5] == '6');
    assert("es2017"@.len() == 6 && "es2017"@[2] == '2' && "es2017"@[3] == '0' && "es2017"@[4] == '1' && "es2017"@[5] == '7');
    assert("es2018"@.len() == 6 && "es2018"@[2] == '2' && "es2018"@[3] == '0' && "es2018"@[4] == '1' && "es2018"@[5] == '8');
    assert("es2019"@.len() == 6 && "es2019"@[2] == '2' && "es2019"@[3] == '0' && "es2019"@[4] == '1' && "es2019"@[5] == '9');
    assert("es2020"@.len() == 6 && "es2020"@[2] == '2' && "es2020"@[3] == '0' && "es2020"@[4] == '2' && "es2020"@[5] == '0');
    assert("es2021"@.len() == 6 && "es2021"@[2] == '2' && "es2021"@[3] == '0' && "es2021"@[4] == '2' && "es2021"@[5] == '1');
    assert("es2022"@.len() == 6 && "es2022"@[2] == '2' && "es2022"@[3] == '0' && "es2022"@[4] == '2' && "es2022"@[5] == '2');
    assert("es2023"@.len() == 6 && "es2023"@[2] == '2' && "es2023"@[3] == '0' && "es2023"@[4] == '2' && "es2023"@[5] == '3');
    assert("es2024"@.len() == 6 && "es2024"@[2] == '2' && "es2024"@[3] == '0' && "es2024"@[4] == '2' && "es2024"@[5] == '4');
    assert("esnext"@.len() == 6 && "esnext"@[2] == 'n' && "esnext"@[3] == 'e' && "esnext"@[4] == 'x' && "esnext"@[5] == 't');
    reveal_with_fuel(decimal_digits, 5);
    let name = "es"@ + decimal_digits(n);
    if n < 10 {
        assert(decimal_digits(n) =~= seq![(48 + n) as char]);
    } else {
        let d = n % 10;
        assert(n / 10 == 201 || n / 10 == 202);
        assert(decimal_digits(n / 10) =~= seq!['2', '0', (48 + (n / 10) % 10) as char]);
        assert(decimal_digits(n) =~= seq!['2', '0', (48 + (n / 10) % 10) as char, (48 + d) as char]);
    }
    assert(name.len() == 3 || name.len() == 6);
    assert(name[0] == 'e' && name[1] == 's');
    if n >= 10 {
        assert(name[2] == '2' && name[3] == '0');
    }
    assert(all_ascii(name));
    assert(ascii_lowercase(name) =~= name);
    if n == 3 {
        assert(name =~= "es3"@);
    } else if n == 5 {
        assert(name =~= "es5"@);
    } else if n == 2015 {
        assert(name =~= "es2015"@);
    } else if n == 2016 {
        assert(name =~= "es2016"@);
    } else if n == 2017 {
        assert(name =~= "es2017"@);
    } else if n == 2018 {
        assert(name =~= "es2018"@);
    } else if n == 2019 {
        assert(name =~= "es2019"@);
    } else if n == 2020 {
        assert(name =~= "es2020"@);
    } else if n == 2021 {
        assert(name =~= "es2021"@);
    } else if n == 2022 {
        assert(name =~= "es2022"@);
    } else if n == 2023 {
        assert(name =~= "es2023"@);
    } else {
        assert(name =~= "es2024"@);
    }
}

/// `"es6"` is the sixth edition, ES2015, and `"esnext"` the moving target
/// that has no edition number.
pub proof fn lemma_version_name_aliases()
    ensures
        es_target_named("es6"@) == es_target_named("es2015"@),
        es_target_named("esnext"@) matches Some(t) && edition_number(t) is None,
{
    reveal_strlit("es");
    reveal_strlit("es3");
    reveal_strlit("es5");
    reveal_strlit("es6");
    reveal_strlit("es2015");
    reveal_strlit("es2016");
    reveal_strlit("es2017");
    reveal_strlit("es2018");
    reveal_strlit("es2019");
    reveal_strlit("es2020");
    reveal_strlit("es2021");
    reveal_strlit("es2022");
    reveal_strlit("es2023");
    reveal_strlit("es2024");
    reveal_strlit("esnext");
    assert("es3"@.len() == 3 && "es3"@[2] == '3');
    assert("es5"@.len() == 3 && "es5"@[2] == '5');
    assert("es6"@.len() == 3 && "es6"@[2] == '6');
    assert("es2015"@.len() == 6 && "es2015"@[2] == '2' && "es2015"@[3] == '0' && "es2015"@[4] == '1' && "es2015"@[5] == '5');
    assert("es2016"@.len() == 6 && "es2016"@[2] == '2' && "es2016"@[3] == '0' && "es2016"@[4] == '1' && "es2016"@[5] == '6');
    assert("es2017"@.len() == 6 && "es2017"@[2] == '2' && "es2017"@[3] == '0' && "es2017"@[4] == '1' && "es2017"@[5] == '7');
    assert("es2018"@.len() == 6 && "es2018"@[2] == '2' && "es2018"@[3] == '0' && "es2018"@[4] == '1' && "es2018"@[5] == '8');
    assert("es2019"@.len() == 6 && "es2019"@[2] == '2' && "es2019"@[3] == '0' && "es2019"@[4] == '1' && "es2019"@[5] == '9');
    assert("es2020"@.len() == 6 && "es2020"@[2] == '2' && "es2020"@[3] == '0' && "es2020"@[4] == '2' && "es2020"@[5] == '0');
    assert("es2021"@.len() == 6 && "es2021"@[2] == '2' && "es2021"@[3] == '0' && "es2021"@[4] == '2' && "es2021"@[5] == '1');
    assert("es2022"@.len() == 6 && "es2022"@[2] == '2' && "es2022"@[3] == '0' && "es2022"@[4] == '2' && "es2022"@[5] == '2');
    assert("es2023"@.len() == 6 && "es2023"@[2] == '2' && "es2023"@[3] == '0' && "es2023"@[4] == '2' && "es2023"@[5] == '3');
    assert("es2024"@.len() == 6 && "es2024"@[2] == '2' && "es2024"@[3] == '0' && "es2024"@[4] == '2' && "es2024"@[5] == '4');
    assert("esnext"@.len() == 6 && "esnext"@[2] == 'n' && "esnext"@[3] == 'e' && "esnext"@[4] == 'x' && "esnext"@[5] == 't');
}

/// Only the names of editions select a target: a name that selects a target
/// is `"es"` followed by that target's edition number, or `"es6"` for ES2015,
/// or `"esnext"` for the target with no number.
pub proof fn lemma_only_edition_names_select(name: Seq<char>)
    ensures
        es_target_named(name) matches Some(t) ==> (match edition_number(t) {
            Some(k) => name == "es"@ + decimal_digits(k) || (k == 2015 && name == "es6"@),
            None => name == "esnext"@,
        }),
{
    reveal_strlit("es");
    reveal_strlit("es3");
    reveal_strlit("es5");
    reveal_strlit("es6");
    reveal_strlit("es2015");
    reveal_strlit("es2016");
    reveal_strlit("es2017");
    reveal_strlit("es2018");
    reveal_strlit("es2019");
    reveal_strlit("es2020");
    reveal_strlit("es2021");
    reveal_strlit("es2022");
    reveal_strlit("es2023");
    reveal_strlit("es2024");
    reveal_strlit("esnext");
    assert("es3"@.len() == 3 && "es3"@[2] == '3');
    assert("es5"@.len() == 3 && "es5"@[2] == '5');
    assert("es6"@.len() == 3 && "es6"@[2] == '6');
    assert("es2015"@.len() == 6 && "es2015"@[2] == '2' && "es2015"@[3] == '0' && "es2015"@[4] == '1' && "es2015"@[5] == '5');
    assert("es2016"@.len() == 6 && "es2016"@[2] == '2' && "es2016"@[3] == '0' && "es2016"@[4] == '1' && "es2016"@[5] == '6');
    assert("es2017"@.len() == 6 && "es2017"@[2] == '2' && "es2017"@[3] == '0' && "es2017"@[4] == '1' && "es2017"@[5] == '7');
    assert("es2018"@.len() == 6 && "es2018"@[2] == '2' && "es2018"@[3] == '0' && "es2018"@[4] == '1' && "es2018"@[5] == '8');
    assert("es2019"@.len() == 6 && "es2019"@[2] == '2' && "es2019"@[3] == '0' && "es2019"@[4] == '1' && "es2019"@[5] == '9');
    assert("es2020"@.len() == 6 && "es2020"@[2] == '2' && "es2020"@[3] == '0' && "es2020"@[4] == '2' && "es2020"@[5] == '0');
    assert("es2021"@.len() == 6 && "es2021"@[2] == '2' && "es2021"@[3] == '0' && "es2021"@[4] == '2' && "es2021"@[5] == '1');
    assert("es2022"@.len() == 6 && "es2022"@[2] == '2' && "es2022"@[3] == '0' && "es2022"@[4] == '2' && "es2022"@[5] == '2');
    assert("es2023"@.len() == 6 && "es2023"@[2] == '2' && "es2023"@[3] == '0' && "es2023"@[4] == '2' && "es2023"@[5] == '3');
    assert("es2024"@.len() == 6 && "es2024"@[2] == '2' && "es2024"@[3] == '0' && "es2024"@[4] == '2' && "es2024"@[5] == '4');
    assert("esnext"@.len() == 6 && "esnext"@[2] == 'n' && "esnext"@[3] == 'e' && "esnext"@[4] == 'x' && "esnext"@[5] == 't');
    reveal_with_fuel(decimal_digits, 5);
    if name == "es3"@ {
        assert("es"@ + decimal_digits(3) =~= "es3"@);
    }
    if name == "es5"@ {
        assert("es"@ + decimal_digits(5) =~= "es5"@);
    }
    if name == "es2015"@ {
        assert("es"@ + decimal_digits(2015) =~= "es2015"@);
    }
    if name == "es2016"@ {
        assert("es"@ + decimal_digits(2016) =~= "es2016"@);
    }
    if name == "es2017"@ {
        assert("es"@ + decimal_digits(2017) =~= "es2017"@);
    }
    if name == "es2018"@ {
        assert("es"@ + decimal_digits(2018) =~= "es2018"@);
    }
    if name == "es2019"@ {
        assert("es"@ + decimal_digits(2019) =~= "es2019"@);
    }
    if name == "es2020"@ {
        assert("es"@ + decimal_digits(2020) =~= "es2020"@);
    }
    if name == "es2021"@ {
        assert("es"@ + decimal_digits(2021) =~= "es2021"@);
    }
    if name == "es2022"@ {
        assert("es"@ + decimal_digits(2022) =~= "es2022"@);
    }
    if name == "es2023"@ {
        assert("es"@ + decimal_digits(2023) =~= "es2023"@);
    }
    if name == "es2024"@ {
        assert("es"@ + decimal_digits(2024) =~= "es2024"@);
    }
}

/// Upper-casing one ASCII letter and lower-casing it again gives its
/// lower-case form.
proof fn lemma_lower_of_upper(c: char)
    ensures
        ascii_lower(ascii_upper(c)) == ascii_lower(c),
        ((c as u32) < 128) ==> ((ascii_upper(c) as u32) < 128),
{
}

/// The version name is matched without regard to ASCII case: an all-ASCII
/// name and its upper-case form select the same target, or both none.
pub proof fn lemma_version_ignores_ascii_case(s: Seq<char>)
    requires
        all_ascii(s),
    ensures
        es_target_of(ascii_uppercase(s)) == es_target_of(s),
{
    let u = ascii_uppercase(s);
    assert forall|i: int| 0 <= i < s.len() implies ascii_lower(#[trigger] u[i]) == ascii_lower(s[i])
        && (u[i] as u32) < 128 by {
        lemma_lower_of_upper(s[i]);
    }
    assert(all_ascii(u));
    assert(ascii_lowercase(u) =~= ascii_lowercase(s));
}

/// Two all-ASCII version names that differ only in the case of their letters
/// select the same target, or both none.
pub proof fn lemma_version_same_lowercase(s: Seq<char>, t: Seq<char>)
    requires
        all_ascii(s),
        all_ascii(t),
        ascii_lowercase(s) == ascii_lowercase(t),
    ensures
        es_target_of(s) == es_target_of(t),
{
}

} // verus!
