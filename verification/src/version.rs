//! The version value: one to three numbers, read from and written as dotted
//! text.

use crate::decimal::{
    decimal, digits_value, is_canonical, is_digit, lemma_canonical_decimal, lemma_decimal_value,
    lemma_parse_canonical, lemma_parse_decimal, parse_int, read_int, write_int, IntFault,
};
use crate::error::{Component, Error, ParseFault};
use crate::text::{
    chars_of, dot_and, field, field_end, lemma_field_of_prefix, lemma_field_step,
    lemma_fields_join,
};
use vstd::prelude::*;

verus! {

/// A version of one, two or three numbers. A number that was not given is
/// kept apart from a zero: the two are written differently, and compare alike.
#[derive(Clone, Copy, Debug)]
pub struct Version {
    pub major: usize,
    pub minor: Option<usize>,
    pub patch: Option<usize>,
}

/// The number that an optional component counts as when versions are compared.
pub open spec fn or_zero(x: Option<usize>) -> usize {
    match x {
        Some(n) => n,
        None => 0,
    }
}

/// What reading an optional field gives: nothing where there is no field.
pub open spec fn parse_optional(f: Option<Seq<char>>) -> Result<Option<usize>, IntFault> {
    match f {
        None => Ok(None),
        Some(t) => match parse_int(t) {
            Ok(n) => Ok(Some(n as usize)),
            Err(kind) => Err(kind),
        },
    }
}

/// The text of an optional component: a dot and the number, or nothing.
pub open spec fn dotted(x: Option<usize>) -> Seq<char> {
    match x {
        Some(n) => seq!['.'] + decimal(n as nat),
        None => Seq::empty(),
    }
}

/// `f` is absent, or a canonical numeral that fits a `usize`.
pub open spec fn plain_number_or_absent(f: Option<Seq<char>>) -> bool {
    f matches Some(t) ==> is_canonical(t) && digits_value(t) <= usize::MAX
}

/// `s` is one, two or three canonical numerals that fit a `usize`, joined by
/// dots: digits only, without sign and without leading zeros.
pub open spec fn is_plain_version_text(s: Seq<char>) -> bool {
    &&& field(s, 0) is Some
    &&& plain_number_or_absent(field(s, 0))
    &&& plain_number_or_absent(field(s, 1))
    &&& plain_number_or_absent(field(s, 2))
    &&& field(s, 3) is None
}

/// Reading a canonical numeral that may be absent gives its number.
proof fn lemma_parse_optional_plain(f: Option<Seq<char>>)
    requires
        plain_number_or_absent(f),
    ensures
        parse_optional(f) is Ok,
        dotted(parse_optional(f)->Ok_0) == dot_and(f),
{
    if let Some(t) = f {
        lemma_parse_canonical(t);
        lemma_canonical_decimal(t);
    }
}

/// Writing a version that was read from one to three plain numbers joined by
/// dots gives the text that it was read from: the precision of the text is
/// kept, though versions of different precision may compare as the same.
pub proof fn law_render_after_parse(s: Seq<char>)
    requires
        is_plain_version_text(s),
    ensures
        Version::parsed(s) is Ok,
        Version::parsed(s)->Ok_0.rendered() == s,
{
    let f0 = field(s, 0)->0;
    lemma_parse_canonical(f0);
    lemma_canonical_decimal(f0);
    lemma_parse_optional_plain(field(s, 1));
    lemma_parse_optional_plain(field(s, 2));
    lemma_fields_join(s);
}

/// Reading what was written for a number and a tail of optional components
/// finds the number first and the tail after it.
proof fn lemma_fields_of_rendered(n: usize, tail: Seq<char>, k: nat)
    requires
        tail.len() == 0 || tail[0] == '.',
    ensures
        parse_int(field(decimal(n as nat) + tail, 0)->0) == Ok::<nat, IntFault>(n as nat),
        tail.len() == 0 ==> field(decimal(n as nat) + tail, k + 1) is None,
        tail.len() > 0 ==> field(decimal(n as nat) + tail, k + 1) == field(tail.skip(1), k),
{
    let t = decimal(n as nat);
    lemma_decimal_value(n as nat);
    lemma_parse_decimal(n as nat);
    assert forall|i: int| 0 <= i < t.len() implies #[trigger] t[i] != '.' by {
        assert(is_digit(t[i]));
    }
    lemma_field_of_prefix(t, tail);
    lemma_field_step(t + tail, k);
}

/// Reading what was written for a version gives the version back, with the
/// same components present. This holds of every version whose patch number
/// is not given without a minor number: such a one is written like a version
/// of two numbers.
pub proof fn law_parse_after_render(v: Version)
    requires
        v.patch is Some ==> v.minor is Some,
    ensures
        Version::parsed(v.rendered()) == Ok::<Version, ParseFault>(v),
{
    let s = v.rendered();
    let tail = dotted(v.minor) + dotted(v.patch);
    assert(s =~= decimal(v.major as nat) + tail);
    lemma_fields_of_rendered(v.major, tail, 0);
    lemma_fields_of_rendered(v.major, tail, 1);
    match v.minor {
        None => {
            assert(tail =~= Seq::<char>::empty());
        },
        Some(m) => {
            let tail2 = dotted(v.patch);
            assert(tail.skip(1) =~= decimal(m as nat) + tail2);
            lemma_fields_of_rendered(m, tail2, 0);
            match v.patch {
                None => {
                    assert(tail2 =~= Seq::<char>::empty());
                },
                Some(p) => {
                    assert(tail2.skip(1) =~= decimal(p as nat) + Seq::<char>::empty());
                    lemma_fields_of_rendered(p, Seq::<char>::empty(), 0);
                },
            }
        },
    }
}

impl Version {
    /// The three numbers by which versions are compared: a component that was
    /// not given counts as zero.
    pub open spec fn key(self) -> (usize, usize, usize) {
        (self.major, or_zero(self.minor), or_zero(self.patch))
    }

    /// The text that the version is written as: the numbers that were given,
    /// joined by dots.
    pub open spec fn rendered(self) -> Seq<char> {
        decimal(self.major as nat) + dotted(self.minor) + dotted(self.patch)
    }

    /// What reading `s` as a version gives. `s` is cut at its dots; the first
    /// three fields are read as numbers, in their order, and the first that
    /// fails decides the fault. Further fields are not looked at.
    pub open spec fn parsed(s: Seq<char>) -> Result<Version, ParseFault> {
        match parse_int(field(s, 0)->0) {
            Err(kind) => Err(ParseFault { component: Component::Major, kind }),
            Ok(major) => match parse_optional(field(s, 1)) {
                Err(kind) => Err(ParseFault { component: Component::Minor, kind }),
                Ok(minor) => match parse_optional(field(s, 2)) {
                    Err(kind) => Err(ParseFault { component: Component::Patch, kind }),
                    Ok(patch) => Ok(Version { major: major as usize, minor, patch }),
                },
            },
        }
    }

    /// `parsed`, with the fault as an `Error`.
    pub open spec fn parse_result(s: Seq<char>) -> Result<Version, Error> {
        match Version::parsed(s) {
            Ok(v) => Ok(v),
            Err(fault) => Err(Error::ParseFailed(fault)),
        }
    }

    /// Reads a version from its dotted text, such as `11.2.0`.
    ///
    /// Each of the first three fields must be a decimal numeral that fits a
    /// `usize`; white space is not skipped.
    pub fn parse(x: &str) -> (r: Result<Version, Error>)
        ensures
            r == Version::parse_result(x@),
    {
        let chars = chars_of(x);
        Version::parse_chars(chars.as_slice())
    }

    /// Reads a version from the characters of its dotted text.
    pub fn parse_chars(text: &[char]) -> (r: Result<Version, Error>)
        ensures
            r == Version::parse_result(text@),
    {
        let ghost s = text@;
        proof {
            reveal_with_fuel(field, 3);
            assert(s.skip(0) =~= s);
        }
        let e0 = field_end(text, 0);
        assert(s.take(e0 as int) =~= s.subrange(0, e0 as int));
        let major = match read_int(text, 0, e0) {
            Ok(n) => n,
            Err(kind) => {
                return Err(Error::ParseFailed(ParseFault { component: Component::Major, kind }));
            },
        };
        let mut minor: Option<usize> = None;
        let mut patch: Option<usize> = None;
        if e0 < text.len() {
            let e1 = field_end(text, e0 + 1);
            let ghost rest = s.skip(e0 + 1);
            assert(rest.take(e1 - e0 - 1) =~= s.subrange(e0 + 1, e1 as int));
            match read_int(text, e0 + 1, e1) {
                Ok(n) => {
                    minor = Some(n);
                },
                Err(kind) => {
                    return Err(
                        Error::ParseFailed(ParseFault { component: Component::Minor, kind }),
                    );
                },
            }
            if e1 < text.len() {
                let e2 = field_end(text, e1 + 1);
                assert(rest.skip(e1 - e0) =~= s.skip(e1 + 1));
                assert(s.skip(e1 + 1).take(e2 - e1 - 1) =~= s.subrange(e1 + 1, e2 as int));
                match read_int(text, e1 + 1, e2) {
                    Ok(n) => {
                        patch = Some(n);
                    },
                    Err(kind) => {
                        return Err(
                            Error::ParseFailed(ParseFault { component: Component::Patch, kind }),
                        );
                    },
                }
            }
        }
        Ok(Version { major, minor, patch })
    }

    /// Writes the version as text: the numbers that were given, joined by dots.
    pub fn to_string(&self) -> (s: String)
        ensures
            s@ == self.rendered(),
    {
        let mut s = String::new();
        write_int(&mut s, self.major);
        if let Some(n) = self.minor {
            s.push('.');
            write_int(&mut s, n);
        }
        if let Some(n) = self.patch {
            s.push('.');
            write_int(&mut s, n);
        }
        assert(s@ =~= self.rendered());
        s
    }
}

} // verus!
