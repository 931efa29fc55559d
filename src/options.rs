use vstd::prelude::*;

use crate::pattern::{first_rejected, texts, Matcher, PatternError};

verus! {

/// `c` is an ASCII decimal digit.
pub open spec fn is_digit(c: char) -> bool {
    '0' <= c <= '9'
}

/// The number that the digits `s` write in base ten.
pub open spec fn digits_value(s: Seq<char>) -> nat
    decreases s.len(),
{
    if s.len() == 0 {
        0
    } else {
        digits_value(s.drop_last()) * 10 + (s.last() as nat - '0' as nat) as nat
    }
}

/// The digits of `s` once an optional leading `+` is dropped.
pub open spec fn unsigned_digits(s: Seq<char>) -> Seq<char> {
    if s.len() > 0 && s[0] == '+' {
        s.drop_first()
    } else {
        s
    }
}

/// `s` writes a `usize` in base ten: an optional `+`, then one or more digits, whose
/// value fits.
pub open spec fn is_count(s: Seq<char>) -> bool {
    let d = unsigned_digits(s);
    &&& d.len() > 0
    &&& forall|i: int| 0 <= i < d.len() ==> is_digit(#[trigger] d[i])
    &&& digits_value(d) <= usize::MAX
}

/// The text of the error that `usize`'s `FromStr` gives on `s`.
pub uninterp spec fn count_error_text(s: Seq<char>) -> Seq<char>;

/// Relies on `usize`'s `FromStr`: it accepts exactly an optional `+` followed by one or
/// more ASCII digits whose value fits, and gives that value; on failure, the text of
/// its `ParseIntError`, which depends on `s` alone.
#[verifier::external_body]
fn parse_count(s: &str) -> (r: Result<usize, String>)
    ensures
        r is Ok <==> is_count(s@),
        r matches Ok(n) ==> n == digits_value(unsigned_digits(s@)),
        r matches Err(t) ==> t@ == count_error_text(s@),
{
    s.parse::<usize>().map_err(|e| e.to_string())
}

/// Why the command line gave no search options.
#[derive(Debug)]
pub enum OptionsError {
    /// The command line itself could not be parsed.
    ParseError(String),
    /// A numeric option's value is not a count.
    ParseOptionError { short: String, long: String, error: String, value: String },
    /// A pattern is not a valid regular expression.
    RegexError(PatternError),
    /// Help was asked for; holds the usage text.
    ShowUsage(String),
    /// The list of compute devices was asked for.
    ListDevices,
}

/// The command line as read: which flags were given, the value given to each option
/// that takes one, and the remaining arguments, which are the patterns.
#[derive(Debug)]
pub struct Arguments {
    pub help: bool,
    pub list: bool,
    pub quiet: bool,
    pub batch_size: Option<String>,
    pub device: Option<String>,
    pub group_size: Option<String>,
    pub num_matches: Option<String>,
    pub threads: Option<String>,
    pub free: Vec<String>,
}

/// What an optional count option came to: nothing, its value, or the reason it is not
/// a count. Where `positive` holds, zero is refused too.
pub open spec fn flag_result(value: Option<String>, positive: bool) -> Option<Result<usize, ()>> {
    match value {
        None => None,
        Some(v) => if is_count(v@) && !(positive && digits_value(unsigned_digits(v@)) == 0) {
            Some(Ok(digits_value(unsigned_digits(v@)) as usize))
        } else {
            Some(Err(()))
        },
    }
}

pub open spec fn flag_ok(value: Option<String>, positive: bool) -> bool {
    !(flag_result(value, positive) matches Some(Err(_)))
}

pub open spec fn flag_value(value: Option<String>, positive: bool) -> Option<usize> {
    match flag_result(value, positive) {
        Some(Ok(n)) => Some(n),
        _ => None,
    }
}

/// The short name, long name and value of the first count option, in the order
/// batch size, device, group size, number of matches, threads, whose value is refused.
/// Batch size, group size and threads must be positive; device and number of matches
/// may be zero.
pub open spec fn first_bad_flag(a: Arguments) -> Option<(Seq<char>, Seq<char>, Seq<char>)> {
    if !flag_ok(a.batch_size, true) {
        Some(("B"@, "batch_size"@, a.batch_size->Some_0@))
    } else if !flag_ok(a.device, false) {
        Some(("D"@, "device"@, a.device->Some_0@))
    } else if !flag_ok(a.group_size, true) {
        Some(("G"@, "group_size"@, a.group_size->Some_0@))
    } else if !flag_ok(a.num_matches, false) {
        Some(("n"@, "num_matches"@, a.num_matches->Some_0@))
    } else if !flag_ok(a.threads, true) {
        Some(("T"@, "threads"@, a.threads->Some_0@))
    } else {
        None
    }
}

/// The error text for a refused count value `v`: zero where a positive count is
/// needed, otherwise what integer parsing reports.
pub open spec fn count_refusal(v: Seq<char>) -> Seq<char> {
    if is_count(v) {
        "must be at least 1"@
    } else {
        count_error_text(v)
    }
}

/// The resolved options of a search run.
#[derive(Debug)]
pub struct Options {
    pub regexes: Matcher,
    pub quiet: bool,
    pub batch_size: Option<usize>,
    pub device: Option<usize>,
    pub group_size: Option<usize>,
    pub num_matches: Option<usize>,
    pub threads: Option<usize>,
}

impl Options {
    /// Reads the value of the option `-short`/`--long` as a count, naming the option
    /// and the value where it is not one, or where it is zero and `positive` holds.
    pub fn parse_flag(value: &Option<String>, short: &str, long: &str, positive: bool) -> (r: Result<
        Option<usize>,
        OptionsError,
    >)
        ensures
            r is Ok <==> flag_ok(*value, positive),
            r matches Ok(n) ==> n == flag_value(*value, positive),
            r matches Err(e) ==> (e matches OptionsError::ParseOptionError { short: s, long: l, value: v, error: t }
                && s@ == short@ && l@ == long@ && value is Some && v@ == value->Some_0@
                && t@ == count_refusal(v@)),
    {
        match value {
            None => Ok(None),
            Some(v) => match parse_count(v.as_str()) {
                Ok(n) => if positive && n == 0 {
                    Err(
                        OptionsError::ParseOptionError {
                            short: short.to_string(),
                            long: long.to_string(),
                            error: "must be at least 1".to_string(),
                            value: v.clone(),
                        },
                    )
                } else {
                    Ok(Some(n))
                },
                Err(error) => Err(
                    OptionsError::ParseOptionError {
                        short: short.to_string(),
                        long: long.to_string(),
                        error,
                        value: v.clone(),
                    },
                ),
            },
        }
    }

    /// Turns the command line as read into options: help and the device list come
    /// first, then every pattern is compiled, then the counts are read in the order
    /// batch size, device, group size, number of matches, threads.
    pub fn from_arguments(args: &Arguments, usage: String) -> (r: Result<Options, OptionsError>)
        ensures
            args.help ==> (r matches Err(OptionsError::ShowUsage(u)) && u@ == usage@),
            !args.help && args.list ==> r matches Err(OptionsError::ListDevices),
            !args.help && !args.list && first_rejected(texts(args.free@)) is Some ==> (r matches Err(
                OptionsError::RegexError(e),
            ) && first_rejected(texts(args.free@)) matches Some(k) && e.pattern@ == args.free@[k]@),
            !args.help && !args.list && first_rejected(texts(args.free@)) is None && first_bad_flag(*args) is Some
                ==> (r matches Err(OptionsError::ParseOptionError { short: s, long: l, value: v, error: t })
                && first_bad_flag(*args) == Some((s@, l@, v@)) && t@ == count_refusal(v@)),
            r is Ok <==> (!args.help && !args.list && first_rejected(texts(args.free@)) is None
                && first_bad_flag(*args) is None),
            r matches Ok(o) ==> (o.regexes@ == texts(args.free@) && o.quiet == args.quiet
                && o.batch_size == flag_value(args.batch_size, true)
                && o.device == flag_value(args.device, false)
                && o.group_size == flag_value(args.group_size, true)
                && o.num_matches == flag_value(args.num_matches, false)
                && o.threads == flag_value(args.threads, true)),
            r matches Ok(o) ==> (!(o.batch_size matches Some(0)) && !(o.group_size matches Some(0))
                && !(o.threads matches Some(0))),
    {
        proof {
            reveal_strlit("must be at least 1");
            reveal_strlit("B");
            reveal_strlit("D");
            reveal_strlit("G");
            reveal_strlit("n");
            reveal_strlit("T");
            reveal_strlit("batch_size");
            reveal_strlit("device");
            reveal_strlit("group_size");
            reveal_strlit("num_matches");
            reveal_strlit("threads");
        }
        if args.help {
            return Err(OptionsError::ShowUsage(usage));
        }
        if args.list {
            return Err(OptionsError::ListDevices);
        }
        let regexes = match Matcher::new(&args.free) {
            Ok(m) => m,
            Err(e) => {
                return Err(OptionsError::RegexError(e));
            },
        };
        let batch_size = match Options::parse_flag(&args.batch_size, "B", "batch_size", true) {
            Ok(n) => n,
            Err(e) => {
                return Err(e);
            },
        };
        let device = match Options::parse_flag(&args.device, "D", "device", false) {
            Ok(n) => n,
            Err(e) => {
                return Err(e);
            },
        };
        let group_size = match Options::parse_flag(&args.group_size, "G", "group_size", true) {
            Ok(n) => n,
            Err(e) => {
                return Err(e);
            },
        };
        let num_matches = match Options::parse_flag(&args.num_matches, "n", "num_matches", false) {
            Ok(n) => n,
            Err(e) => {
                return Err(e);
            },
        };
        let threads = match Options::parse_flag(&args.threads, "T", "threads", true) {
            Ok(n) => n,
            Err(e) => {
                return Err(e);
            },
        };
        Ok(Options { regexes, quiet: args.quiet, batch_size, device, group_size, num_matches, threads })
    }
}

/// Two results of reading a command line agree: both the same options (patterns,
/// quiet flag and every count), or both the same refusal with the same details.
pub open spec fn same_reading(r1: Result<Options, OptionsError>, r2: Result<Options, OptionsError>) -> bool {
    match (r1, r2) {
        (Ok(o1), Ok(o2)) => o1.regexes@ == o2.regexes@ && o1.quiet == o2.quiet && o1.batch_size
            == o2.batch_size && o1.device == o2.device && o1.group_size == o2.group_size
            && o1.num_matches == o2.num_matches && o1.threads == o2.threads,
        (Err(OptionsError::ShowUsage(u1)), Err(OptionsError::ShowUsage(u2))) => u1@ == u2@,
        (Err(OptionsError::ListDevices), Err(OptionsError::ListDevices)) => true,
        (Err(OptionsError::RegexError(e1)), Err(OptionsError::RegexError(e2))) => e1.pattern@
            == e2.pattern@,
        (
            Err(OptionsError::ParseOptionError { short: s1, long: l1, error: t1, value: v1 }),
            Err(OptionsError::ParseOptionError { short: s2, long: l2, error: t2, value: v2 }),
        ) => s1@ == s2@ && l1@ == l2@ && t1@ == t2@ && v1@ == v2@,
        _ => false,
    }
}

/// Reading the same command line twice gives the same options or the same refusal:
/// nothing but the arguments decides, so a re-run starts from the same configuration.
pub proof fn lemma_options_rerun(
    args: Arguments,
    usage: String,
    r1: Result<Options, OptionsError>,
    r2: Result<Options, OptionsError>,
)
    requires
        call_ensures(Options::from_arguments, (&args, usage), r1),
        call_ensures(Options::from_arguments, (&args, usage), r2),
    ensures
        same_reading(r1, r2),
{
}

} // verus!
