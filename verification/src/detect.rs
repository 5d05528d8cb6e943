//! The decisions of a detector that asks a compiler for its version: which
//! question to put to a compiler of which family, and what the answer says.
//!
//! Running the compiler is left to the caller. `Query::of` says what to run,
//! and `conclude` turns what came back into a version or an error.

use crate::decimal::{decimal, is_digit, lemma_decimal_value};
use crate::error::Error;
use crate::text::{
    all_white_space, chars_of, find, find_first, law_trim_padded, string_of, trim, trim_bounds,
};
use crate::version::{law_parse_after_render, Version};
use vstd::prelude::*;
use vstd::slice::slice_subrange;
use vstd::utf8::{decode_utf8, valid_utf8};

verus! {

/// A compiler as the `cc` crate found it. Nothing is known of what it holds.
#[verifier::external_type_specification]
#[verifier::external_body]
pub struct ExTool(cc::Tool);

/// Whether `cc` takes the compiler for one that behaves like GCC: what
/// `cc::Tool::is_like_gnu` answers.
pub uninterp spec fn gnu_like(tool: cc::Tool) -> bool;

/// Whether `cc` takes the compiler for one that behaves like Clang: what
/// `cc::Tool::is_like_clang` answers.
pub uninterp spec fn clang_like(tool: cc::Tool) -> bool;

/// Whether `cc` takes the compiler for one that behaves like MSVC's `cl`:
/// what `cc::Tool::is_like_msvc` answers.
pub uninterp spec fn msvc_like(tool: cc::Tool) -> bool;

/// `cc::Tool::is_like_gnu`: the answer is read from the tool and depends on
/// nothing else.
pub assume_specification[ cc::Tool::is_like_gnu ](tool: &cc::Tool) -> (b: bool)
    ensures
        b == gnu_like(*tool),
;

/// `cc::Tool::is_like_clang`: the answer is read from the tool and depends on
/// nothing else.
pub assume_specification[ cc::Tool::is_like_clang ](tool: &cc::Tool) -> (b: bool)
    ensures
        b == clang_like(*tool),
;

/// `cc::Tool::is_like_msvc`: the answer is read from the tool and depends on
/// nothing else.
pub assume_specification[ cc::Tool::is_like_msvc ](tool: &cc::Tool) -> (b: bool)
    ensures
        b == msvc_like(*tool),
;

/// The text that `String::from_utf8_lossy` makes of `bytes`: their decoding as
/// UTF-8, with U+FFFD in place of each malformed part.
pub uninterp spec fn lossy_text(bytes: Seq<u8>) -> Seq<char>;

/// `String::from_utf8_lossy`: the result depends on the bytes alone, and
/// well-formed UTF-8 is decoded as it stands.
#[verifier::external_body]
fn decode_lossy(bytes: &[u8]) -> (s: String)
    ensures
        s@ == lossy_text(bytes@),
        valid_utf8(bytes@) ==> s@ == decode_utf8(bytes@),
{
    String::from_utf8_lossy(bytes).into_owned()
}

/// The families of compilers, by the way they report their version.
#[derive(Clone, Copy, Debug, PartialEq, Eq, Structural)]
pub enum Family {
    /// Behaves like GCC.
    Gnu,
    /// Behaves like Clang.
    Clang,
    /// Behaves like MSVC's `cl`.
    Msvc,
    /// None of these.
    Unknown,
}

/// The output stream of a process on which an answer arrives.
#[derive(Clone, Copy, Debug, PartialEq, Eq, Structural)]
pub enum Stream {
    Stdout,
    Stderr,
}

/// The question put to a compiler.
#[derive(Clone, Copy, Debug, PartialEq, Eq, Structural)]
pub enum Query {
    /// Run the compiler itself with the flag that makes it print its bare
    /// version on standard output.
    DumpVersion,
    /// Run `cl` without arguments and read the banner that it prints on
    /// standard error.
    Banner,
}

/// The word that precedes the version in the banner of `cl`.
pub open spec fn version_marker() -> Seq<char> {
    "Version "@
}

/// The word that follows the version in the banner of `cl`.
pub open spec fn target_marker() -> Seq<char> {
    " for "@
}

/// The part of a banner that holds the version: what stands between the end
/// of the first `Version ` and the start of the first ` for `. There is none
/// where one of the two words is missing or the second starts too early.
pub open spec fn banner_version(s: Seq<char>) -> Option<Seq<char>> {
    match (find(s, version_marker()), find(s, target_marker())) {
        (Some(a), Some(b)) => if a + version_marker().len() <= b {
            Some(s.subrange(a + version_marker().len(), b))
        } else {
            None
        },
        _ => None,
    }
}

/// What the text printed for `Query::DumpVersion` says.
pub open spec fn dump_result(s: Seq<char>) -> Result<Version, Error> {
    Version::parse_result(trim(s))
}

/// What the banner printed for `Query::Banner` says.
pub open spec fn banner_result(s: Seq<char>) -> Result<Version, Error> {
    match banner_version(s) {
        Some(t) => Version::parse_result(trim(t)),
        None => Err(Error::BannerNotRecognized),
    }
}

/// What the outcome of running a query says: the error of a process that
/// could not be run, or else what the bytes that it printed say.
pub open spec fn conclusion(query: Query, outcome: Result<Seq<u8>, std::io::Error>) -> Result<
    Version,
    Error,
> {
    match outcome {
        Err(e) => Err(Error::CommandFailed(e)),
        Ok(bytes) => match query {
            Query::DumpVersion => dump_result(lossy_text(bytes)),
            Query::Banner => banner_result(lossy_text(bytes)),
        },
    }
}

/// What a process printed, as plain bytes.
pub open spec fn printed(outcome: Result<Vec<u8>, std::io::Error>) -> Result<
    Seq<u8>,
    std::io::Error,
> {
    match outcome {
        Ok(bytes) => Ok(bytes@),
        Err(e) => Err(e),
    }
}

/// `r` is what detection gives for a compiler of the given family when `run`
/// is the way to run a query: for an unknown family the error that says so,
/// and else the conclusion from an outcome of `run` on the family's query.
pub open spec fn detected<F: FnOnce(Query) -> Result<Vec<u8>, std::io::Error>>(
    family: Family,
    run: F,
    r: Result<Version, Error>,
) -> bool {
    match Query::for_family(family) {
        Err(e) => r == Err::<Version, Error>(e),
        Ok(q) => exists|outcome: Result<Vec<u8>, std::io::Error>| #[trigger]
            call_ensures(run, (q,), outcome) && r == conclusion(q, printed(outcome)),
    }
}

/// A version that was written as text is read back from a dump of that text
/// with white space around it, such as the newline that a compiler prints
/// after its version. This holds of every version whose patch number is not
/// given without a minor number.
pub proof fn law_dump_of_rendered(v: Version, lead: Seq<char>, trail: Seq<char>)
    requires
        v.patch is Some ==> v.minor is Some,
        all_white_space(lead),
        all_white_space(trail),
    ensures
        dump_result(lead + v.rendered() + trail) == Ok::<Version, Error>(v),
{
    let t = v.rendered();
    let major = decimal(v.major as nat);
    lemma_decimal_value(v.major as nat);
    assert(is_digit(major[0]));
    assert(t.first() == major[0]);
    let last = match v.patch {
        Some(p) => decimal(p as nat),
        None => match v.minor {
            Some(m) => decimal(m as nat),
            None => major,
        },
    };
    match v.patch {
        Some(p) => {
            lemma_decimal_value(p as nat);
        },
        None => match v.minor {
            Some(m) => {
                lemma_decimal_value(m as nat);
            },
            None => {},
        },
    }
    assert(is_digit(last.last()));
    assert(t.last() == last.last());
    law_trim_padded(lead, t, trail);
    law_parse_after_render(v);
}

impl Family {
    /// The family that three answers on a compiler's kind stand for. Where
    /// more than one is affirmed, GCC goes before Clang and Clang before MSVC.
    pub open spec fn from_flags_spec(gnu: bool, clang: bool, msvc: bool) -> Family {
        if gnu {
            Family::Gnu
        } else if clang {
            Family::Clang
        } else if msvc {
            Family::Msvc
        } else {
            Family::Unknown
        }
    }

    /// The family that three answers on a compiler's kind stand for.
    pub fn from_flags(gnu: bool, clang: bool, msvc: bool) -> (f: Family)
        ensures
            f == Family::from_flags_spec(gnu, clang, msvc),
    {
        if gnu {
            Family::Gnu
        } else if clang {
            Family::Clang
        } else if msvc {
            Family::Msvc
        } else {
            Family::Unknown
        }
    }

    /// The family of a compiler that `cc` found, from what `cc` says of it.
    pub open spec fn of_tool(tool: cc::Tool) -> Family {
        Family::from_flags_spec(gnu_like(tool), clang_like(tool), msvc_like(tool))
    }

    /// The family of a compiler that `cc` found, from what `cc` says of it.
    pub fn of(tool: &cc::Tool) -> (f: Family)
        ensures
            f == Family::of_tool(*tool),
    {
        Family::from_flags(tool.is_like_gnu(), tool.is_like_clang(), tool.is_like_msvc())
    }
}

impl Query {
    /// The question for each family; there is none for an unknown one.
    pub open spec fn for_family(family: Family) -> Result<Query, Error> {
        match family {
            Family::Gnu => Ok(Query::DumpVersion),
            Family::Clang => Ok(Query::DumpVersion),
            Family::Msvc => Ok(Query::Banner),
            Family::Unknown => Err(Error::UnknownCompiler),
        }
    }

    /// The question to put to a compiler of the given family. For an unknown
    /// family there is none, so nothing is to be run.
    pub fn of(family: Family) -> (r: Result<Query, Error>)
        ensures
            r == Query::for_family(family),
    {
        match family {
            Family::Gnu => Ok(Query::DumpVersion),
            Family::Clang => Ok(Query::DumpVersion),
            Family::Msvc => Ok(Query::Banner),
            Family::Unknown => Err(Error::UnknownCompiler),
        }
    }

    /// The program to run: `cl` for the banner, and for the version dump none
    /// by name, since there the compiler's own command is run.
    pub fn program(&self) -> (r: Option<&'static str>)
        ensures
            *self == Query::DumpVersion ==> r is None,
            *self == Query::Banner ==> (r matches Some(p) && p@ == "cl"@),
    {
        match self {
            Query::DumpVersion => None,
            Query::Banner => Some("cl"),
        }
    }

    /// The one argument to add to the command, if any.
    pub fn argument(&self) -> (r: Option<&'static str>)
        ensures
            *self == Query::DumpVersion ==> (r matches Some(a) && a@ == "-dumpversion"@),
            *self == Query::Banner ==> r is None,
    {
        match self {
            Query::DumpVersion => Some("-dumpversion"),
            Query::Banner => None,
        }
    }

    /// The stream on which the answer arrives.
    pub fn stream(&self) -> (r: Stream)
        ensures
            r == (match *self {
                Query::DumpVersion => Stream::Stdout,
                Query::Banner => Stream::Stderr,
            }),
    {
        match self {
            Query::DumpVersion => Stream::Stdout,
            Query::Banner => Stream::Stderr,
        }
    }
}

/// Where the version stands in a banner: from the end of the first
/// `Version ` to the start of the first ` for `.
pub fn banner_bounds(text: &[char]) -> (r: Option<(usize, usize)>)
    ensures
        r matches Some(b) ==> (b.0 <= b.1 <= text@.len() && banner_version(text@) == Some(
            text@.subrange(b.0 as int, b.1 as int),
        )),
        r is None ==> banner_version(text@) is None,
{
    let before = chars_of("Version ");
    let after = chars_of(" for ");
    match (find_first(text, before.as_slice()), find_first(text, after.as_slice())) {
        (Some(a), Some(b)) => {
            assert(a + before@.len() <= text.len());
            let from: usize = a + before.len();
            if from <= b {
                Some((from, b))
            } else {
                None
            }
        },
        _ => None,
    }
}

/// Takes the version out of the banner that `cl` prints, untrimmed.
pub fn get_msvc_version(s: &str) -> (r: Result<String, Error>)
    ensures
        banner_version(s@) matches Some(t) ==> (r matches Ok(v) && v@ == t),
        banner_version(s@) is None ==> r matches Err(Error::BannerNotRecognized),
{
    let text = chars_of(s);
    match banner_bounds(text.as_slice()) {
        Some((from, to)) => Ok(string_of(text.as_slice(), from, to)),
        None => Err(Error::BannerNotRecognized),
    }
}

/// Reads the version that `text[from..to]` holds between white space.
pub fn parse_trimmed(text: &[char], from: usize, to: usize) -> (r: Result<Version, Error>)
    requires
        from <= to <= text@.len(),
    ensures
        r == Version::parse_result(trim(text@.subrange(from as int, to as int))),
{
    let (a, b) = trim_bounds(text, from, to);
    Version::parse_chars(slice_subrange(text, a, b))
}

/// Reads the version from what a compiler printed when asked to dump it.
pub fn version_from_dump(text: &str) -> (r: Result<Version, Error>)
    ensures
        r == dump_result(text@),
{
    let chars = chars_of(text);
    assert(chars@.subrange(0, chars@.len() as int) =~= chars@);
    parse_trimmed(chars.as_slice(), 0, chars.len())
}

/// Reads the version from the banner that `cl` printed.
pub fn version_from_banner(text: &str) -> (r: Result<Version, Error>)
    ensures
        r == banner_result(text@),
{
    let chars = chars_of(text);
    match banner_bounds(chars.as_slice()) {
        Some((from, to)) => parse_trimmed(chars.as_slice(), from, to),
        None => Err(Error::BannerNotRecognized),
    }
}

/// Turns the outcome of running a query into a version: what the process
/// printed on the query's stream, or the error with which running it failed.
pub fn conclude(query: Query, outcome: Result<Vec<u8>, std::io::Error>) -> (r: Result<
    Version,
    Error,
>)
    ensures
        r == conclusion(query, printed(outcome)),
        outcome matches Ok(bytes) ==> (valid_utf8(bytes@) ==> r == (match query {
            Query::DumpVersion => dump_result(decode_utf8(bytes@)),
            Query::Banner => banner_result(decode_utf8(bytes@)),
        })),
{
    match outcome {
        Err(e) => Err(Error::CommandFailed(e)),
        Ok(bytes) => {
            let text = decode_lossy(bytes.as_slice());
            match query {
                Query::DumpVersion => version_from_dump(text.as_str()),
                Query::Banner => version_from_banner(text.as_str()),
            }
        },
    }
}

/// Finds the version of a compiler of the given family. `run` runs the
/// process that a query asks for and hands back what it printed on the
/// query's stream, or the error with which it could not be run. It is called
/// once for a known family, and not at all for an unknown one.
pub fn detect<F: FnOnce(Query) -> Result<Vec<u8>, std::io::Error>>(family: Family, run: F) -> (r:
    Result<Version, Error>)
    requires
        Query::for_family(family) matches Ok(q) ==> call_requires(run, (q,)),
    ensures
        detected(family, run, r),
{
    match Query::of(family) {
        Err(e) => Err(e),
        Ok(query) => {
            let outcome = run(query);
            conclude(query, outcome)
        },
    }
}

/// Finds the version of a compiler that `cc` found, with `run` as in
/// `detect`: the tool's family decides the query, and a tool of no known
/// family gives the error that says so without `run` being called.
pub fn cc_version<F: FnOnce(Query) -> Result<Vec<u8>, std::io::Error>>(
    tool: &cc::Tool,
    run: F,
) -> (r: Result<Version, Error>)
    requires
        forall|q: Query| call_requires(run, (q,)),
    ensures
        detected(Family::of_tool(*tool), run, r),
{
    detect(Family::of(tool), run)
}

} // verus!
