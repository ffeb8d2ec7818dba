//! Reading the run's options out of the command-line arguments.

use vstd::prelude::*;
use crate::text::views_of;

verus! {

/// Options of one run.
#[derive(Clone, Debug)]
pub struct Options {
    pub path: String,
    pub start_page: u32,
    pub remove_suffix: bool,
    pub output_path: String,
}

/// Why the arguments could not be read.
#[derive(Clone, Copy, Debug, PartialEq, Eq)]
pub enum ArgError {
    /// Fewer than the program name, the document path and the start page.
    Usage,
    /// The start page is not a decimal `u32`.
    BadStartPage,
}

/// The value of a run of decimal digits.
pub open spec fn digits_value(s: Seq<char>) -> int
    decreases s.len(),
{
    if s.len() == 0 {
        0
    } else {
        10 * digits_value(s.drop_last()) + (s.last() as int - '0' as int)
    }
}

/// Every character is an ASCII decimal digit.
pub open spec fn all_digits(s: Seq<char>) -> bool {
    forall|i: int| 0 <= i < s.len() ==> '0' <= #[trigger] s[i] <= '9'
}

/// The `u32` written in `s`: an optional `+`, then one or more decimal digits
/// whose value fits; `None` for anything else.
pub open spec fn parsed_u32(s: Seq<char>) -> Option<u32> {
    let digits = if s.len() > 0 && s[0] == '+' {
        s.drop_first()
    } else {
        s
    };
    if digits.len() > 0 && all_digits(digits) && digits_value(digits) <= u32::MAX {
        Some(digits_value(digits) as u32)
    } else {
        None
    }
}

/// Relies on `str::parse::<u32>`: an optional `+` followed by decimal digits,
/// nothing else, whose value fits in a `u32`.
#[verifier::external_body]
fn parse_u32(s: &str) -> (r: Option<u32>)
    ensures
        r == parsed_u32(s@),
{
    s.parse::<u32>().ok()
}

/// The output file used when none is named.
pub open spec fn default_output_path() -> Seq<char> {
    "city_names.csv"@
}

/// The flag that turns suffix stripping on.
pub open spec fn is_remove_flag(a: Seq<char>) -> bool {
    a == "-r"@ || a == "--remove-suffix"@
}

/// The flag whose next argument names the output file.
pub open spec fn is_output_flag(a: Seq<char>) -> bool {
    a == "-o"@ || a == "--output-path"@
}

/// The argument after the first output flag that has one after it, or the
/// default output file.
pub open spec fn output_path_spec(args: Seq<Seq<char>>) -> Seq<char>
    decreases args.len(),
{
    if args.len() < 2 {
        default_output_path()
    } else if is_output_flag(args[0]) {
        args[1]
    } else {
        output_path_spec(args.drop_first())
    }
}

/// Reads `<program> <path> <start_page>` and the optional flags `-r` /
/// `--remove-suffix` and `-o` / `--output-path <path>`, which may stand
/// anywhere among the arguments.
pub fn parse_arguments(args: &Vec<String>) -> (r: Result<Options, ArgError>)
    ensures
        args@.len() < 3 <==> r == Err::<Options, ArgError>(ArgError::Usage),
        args@.len() >= 3 && parsed_u32(args@[2]@) is None <==> r == Err::<Options, ArgError>(
            ArgError::BadStartPage,
        ),
        r is Ok ==> ({
            let o = r->Ok_0;
            &&& o.path@ == args@[1]@
            &&& Some(o.start_page) == parsed_u32(args@[2]@)
            &&& o.remove_suffix == exists|k: int|
                0 <= k < args@.len() && is_remove_flag(#[trigger] args@[k]@)
            &&& o.output_path@ == output_path_spec(views_of(args@))
        }),
{
    if args.len() < 3 {
        return Err(ArgError::Usage);
    }
    let ghost av = views_of(args@);
    let short_remove = String::from_str("-r");
    let long_remove = String::from_str("--remove-suffix");
    let short_output = String::from_str("-o");
    let long_output = String::from_str("--output-path");
    let mut remove_suffix = false;
    let mut output_path: Option<String> = None;
    let mut i: usize = 0;
    assert(av.subrange(0, av.len() as int) =~= av);
    while i < args.len()
        invariant
            i <= args@.len(),
            av == views_of(args@),
            short_remove@ == "-r"@,
            long_remove@ == "--remove-suffix"@,
            short_output@ == "-o"@,
            long_output@ == "--output-path"@,
            remove_suffix == exists|k: int| 0 <= k < i && is_remove_flag(#[trigger] args@[k]@),
            match output_path {
                Some(p) => p@ == output_path_spec(av),
                None => output_path_spec(av) == output_path_spec(
                    av.subrange(i as int, av.len() as int),
                ),
            },
        decreases args@.len() - i,
    {
        let arg = &args[i];
        if *arg == short_remove || *arg == long_remove {
            remove_suffix = true;
        }
        proof {
            let rest = av.subrange(i as int, av.len() as int);
            assert(rest.drop_first() =~= av.subrange(i + 1, av.len() as int));
            assert(rest[0] == arg@);
        }
        if output_path.is_none() && i + 1 < args.len() && (*arg == short_output || *arg
            == long_output) {
            output_path = Some(args[i + 1].clone());
        }
        i = i + 1;
    }
    let output_path = match output_path {
        Some(p) => p,
        None => {
            proof {
                assert(av.subrange(i as int, av.len() as int).len() == 0);
            }
            String::from_str("city_names.csv")
        },
    };
    match parse_u32(args[2].as_str()) {
        Some(start_page) => Ok(
            Options { path: args[1].clone(), start_page, remove_suffix, output_path },
        ),
        None => Err(ArgError::BadStartPage),
    }
}

} // verus!
