use vstd::prelude::*;

verus! {

/// The audio cache limit when none is given: one gibibyte.
pub const AUDIO_CACHE_LIMIT_BYTES: u64 = 1_073_741_824;

/// Bytes in a mebibyte.
pub const MEBIBYTE: u64 = 1_048_576;

/// What the command line configures.
#[derive(Debug)]
pub struct Arguments {
    /// The engine's own directory, an absolute path.
    pub state_directory: String,
    /// The diagnostic log, if the launcher names one.
    pub log_file: Option<String>,
    /// The audio cache limit in bytes; `None` is unlimited.
    pub audio_cache_limit_bytes: Option<u64>,
    /// Whether track-gain normalisation is on.
    pub normalisation: bool,
}

/// Why a command line is refused.
#[derive(Debug)]
pub enum ArgumentError {
    /// A flag is the last argument.
    MissingValue { name: String },
    DuplicateStateDir,
    RelativeStateDir,
    DuplicateCacheLimit,
    CacheLimitNotANumber,
    CacheLimitTooLarge,
    NormalisationNotABoolean { value: String },
    Unknown { name: String },
    /// No state directory was given at all.
    MissingStateDir,
}

/// The value of an [`ArgumentError`].
pub enum ArgumentFault {
    MissingValue(Seq<char>),
    DuplicateStateDir,
    RelativeStateDir,
    DuplicateCacheLimit,
    CacheLimitNotANumber,
    CacheLimitTooLarge,
    NormalisationNotABoolean(Seq<char>),
    Unknown(Seq<char>),
    MissingStateDir,
}

impl View for ArgumentError {
    type V = ArgumentFault;

    open spec fn view(&self) -> ArgumentFault {
        match self {
            ArgumentError::MissingValue { name } => ArgumentFault::MissingValue(name@),
            ArgumentError::DuplicateStateDir => ArgumentFault::DuplicateStateDir,
            ArgumentError::RelativeStateDir => ArgumentFault::RelativeStateDir,
            ArgumentError::DuplicateCacheLimit => ArgumentFault::DuplicateCacheLimit,
            ArgumentError::CacheLimitNotANumber => ArgumentFault::CacheLimitNotANumber,
            ArgumentError::CacheLimitTooLarge => ArgumentFault::CacheLimitTooLarge,
            ArgumentError::NormalisationNotABoolean { value } => ArgumentFault::NormalisationNotABoolean(
                value@,
            ),
            ArgumentError::Unknown { name } => ArgumentFault::Unknown(name@),
            ArgumentError::MissingStateDir => ArgumentFault::MissingStateDir,
        }
    }
}

/// What a scan of the command line has gathered so far.
pub struct Scan {
    pub state_directory: Option<Seq<char>>,
    pub log_file: Option<Seq<char>>,
    pub cache_limit: Option<u64>,
    pub cache_seen: bool,
    pub normalisation: bool,
}

/// Whether `c` is an ASCII decimal digit.
pub open spec fn is_digit(c: char) -> bool {
    '0' <= c && c <= '9'
}

/// The number a run of decimal digits spells.
pub open spec fn digits_value(digits: Seq<char>) -> int
    decreases digits.len(),
{
    if digits.len() == 0 {
        0
    } else {
        digits_value(digits.drop_last()) * 10 + (digits.last() as int - '0' as int)
    }
}

/// The unsigned 64-bit number `text` spells, as `u64`'s `FromStr` reads
/// it: an optional `+`, then one or more decimal digits, and nothing else,
/// with a value that fits.
pub open spec fn decimal(text: Seq<char>) -> Option<u64> {
    let digits = decimal_digits_of(text);
    if digits.len() > 0 && (forall|k: int| 0 <= k < digits.len() ==> is_digit(#[trigger] digits[k]))
        && digits_value(digits) <= u64::MAX {
        Some(digits_value(digits) as u64)
    } else {
        None
    }
}

/// The digits `decimal` reads from `text`: all of it, past a leading `+`.
pub open spec fn decimal_digits_of(text: Seq<char>) -> Seq<char> {
    if text.len() > 0 && text[0] == '+' {
        text.subrange(1, text.len() as int)
    } else {
        text
    }
}

/// `decimal` refuses a text whose digits hold something else at `j`.
proof fn lemma_decimal_refuses_non_digit(text: Seq<char>, j: int)
    requires
        0 <= j < decimal_digits_of(text).len(),
        !is_digit(decimal_digits_of(text)[j]),
    ensures
        decimal(text) is None,
{
}

/// `decimal` refuses a text whose digits spell more than `u64` holds.
proof fn lemma_decimal_refuses_overflow(text: Seq<char>)
    requires
        digits_value(decimal_digits_of(text)) > u64::MAX,
    ensures
        decimal(text) is None,
{
}

/// A run of digits is worth at least as much as any of its prefixes.
proof fn lemma_prefix_value_bounded(digits: Seq<char>, m: int)
    requires
        0 <= m <= digits.len(),
        forall|k: int| 0 <= k < digits.len() ==> is_digit(#[trigger] digits[k]),
    ensures
        digits_value(digits.subrange(0, m)) <= digits_value(digits),
        0 <= digits_value(digits),
    decreases digits.len(),
{
    if digits.len() > 0 {
        let rest = digits.drop_last();
        assert forall|k: int| 0 <= k < rest.len() implies is_digit(#[trigger] rest[k]) by {
            assert(rest[k] == digits[k]);
        }
        if m == digits.len() {
            assert(digits.subrange(0, m) =~= digits);
            lemma_prefix_value_bounded(rest, 0);
        } else {
            assert(digits.subrange(0, m) =~= rest.subrange(0, m));
            lemma_prefix_value_bounded(rest, m);
        }
        assert(is_digit(digits.last()));
        assert(digits_value(rest) <= digits_value(rest) * 10) by (nonlinear_arith)
            requires
                0 <= digits_value(rest),
        ;
    }
}

/// Reads a command-line number as `str::parse::<u64>` does: an optional
/// `+`, then one or more decimal digits and nothing else, with a value that
/// fits.
fn parse_u64(text: &str) -> (number: Option<u64>)
    ensures
        number == decimal(text@),
{
    let n = text.unicode_len();
    let start: usize = if n > 0 && text.get_char(0) == '+' {
        1
    } else {
        0
    };
    let ghost digits = text@.subrange(start as int, n as int);
    assert(digits == if text@.len() > 0 && text@[0] == '+' {
        text@.subrange(1, text@.len() as int)
    } else {
        text@
    });
    if start >= n {
        return None;
    }
    let mut value: u64 = 0;
    let mut k: usize = start;
    while k < n
        invariant
            start <= k <= n,
            n == text@.len(),
            start < n,
            digits == text@.subrange(start as int, n as int),
            digits == if text@.len() > 0 && text@[0] == '+' {
                text@.subrange(1, text@.len() as int)
            } else {
                text@
            },
            forall|j: int| 0 <= j < k - start ==> is_digit(#[trigger] digits[j]),
            value == digits_value(digits.subrange(0, k - start)),
        decreases n - k,
    {
        let c = text.get_char(k);
        assert(digits[k - start] == c);
        let code = c as u32;
        if code < 48 || code > 57 {
            proof {
                assert(!is_digit(digits[k - start]));
                lemma_decimal_refuses_non_digit(text@, k - start);
            }
            return None;
        }
        assert(is_digit(c));
        let ghost prefix = digits.subrange(0, k - start + 1);
        assert(prefix.drop_last() =~= digits.subrange(0, k - start));
        assert(prefix.last() == c);
        let digit = (code - 48) as u64;
        assert(digits_value(prefix) == value * 10 + digit);
        let next = match value.checked_mul(10) {
            Some(tens) => tens.checked_add(digit),
            None => None,
        };
        match next {
            Some(next) => {
                value = next;
            },
            None => {
                proof {
                    if forall|j: int| 0 <= j < digits.len() ==> is_digit(#[trigger] digits[j]) {
                        lemma_prefix_value_bounded(digits, k - start + 1);
                        assert(value * 10 + digit > u64::MAX);
                        assert(digits_value(digits) > u64::MAX);
                        lemma_decimal_refuses_overflow(text@);
                    } else {
                        let j = choose|j: int| 0 <= j < digits.len() && !is_digit(digits[j]);
                        lemma_decimal_refuses_non_digit(text@, j);
                    }
                }
                return None;
            },
        }
        k = k + 1;
    }
    assert(digits.subrange(0, n - start) =~= digits);
    Some(value)
}

/// Whether `text` names an absolute path on this machine, by
/// `std::path::Path::is_absolute`.
///
/// Trusted, and platform-dependent: the contract says only that an empty
/// path is never absolute, which holds on every platform the standard
/// library documents (an absolute path starts with a root).
#[verifier::external_body]
fn is_absolute_path(text: &str) -> (absolute: bool)
    ensures
        text@.len() == 0 ==> !absolute,
{
    std::path::Path::new(text).is_absolute()
}

/// What one flag pair `name value` does to the scan so far, `absolute`
/// saying whether the value is an absolute path.
pub open spec fn step(name: Seq<char>, value: Seq<char>, absolute: bool, acc: Scan) -> Result<Scan, ArgumentFault> {
    if name == "--state-dir"@ {
        if acc.state_directory is Some {
            Err(ArgumentFault::DuplicateStateDir)
        } else if !absolute {
            Err(ArgumentFault::RelativeStateDir)
        } else {
            Ok(Scan { state_directory: Some(value), ..acc })
        }
    } else if name == "--log-file"@ {
        Ok(Scan { log_file: Some(value), ..acc })
    } else if name == "--audio-cache-limit-mb"@ {
        if acc.cache_seen {
            Err(ArgumentFault::DuplicateCacheLimit)
        } else {
            match decimal(value) {
                None => Err(ArgumentFault::CacheLimitNotANumber),
                Some(mb) => if mb == 0 {
                    Ok(Scan { cache_limit: None, cache_seen: true, ..acc })
                } else if mb * MEBIBYTE > u64::MAX {
                    Err(ArgumentFault::CacheLimitTooLarge)
                } else {
                    Ok(Scan { cache_limit: Some((mb * MEBIBYTE) as u64), cache_seen: true, ..acc })
                },
            }
        }
    } else if name == "--normalisation"@ {
        if value == "true"@ {
            Ok(Scan { normalisation: true, ..acc })
        } else if value == "false"@ {
            Ok(Scan { normalisation: false, ..acc })
        } else {
            Err(ArgumentFault::NormalisationNotABoolean(value))
        }
    } else {
        Err(ArgumentFault::Unknown(name))
    }
}

/// Scans the flag pairs from position `i` on; `absolute[k]` says whether
/// argument `k` names an absolute path.
pub open spec fn scan_from(args: Seq<Seq<char>>, absolute: Seq<bool>, i: int, acc: Scan) -> Result<Scan, ArgumentFault>
    decreases args.len() - i,
{
    if i < 0 || i >= args.len() {
        Ok(acc)
    } else if i + 1 >= args.len() {
        Err(ArgumentFault::MissingValue(args[i]))
    } else {
        match step(args[i], args[i + 1], absolute[i + 1], acc) {
            Err(fault) => Err(fault),
            Ok(next) => scan_from(args, absolute, i + 2, next),
        }
    }
}

/// Nothing gathered yet: the default cache limit, normalisation off.
pub open spec fn fresh_scan() -> Scan {
    Scan {
        state_directory: None,
        log_file: None,
        cache_limit: Some(AUDIO_CACHE_LIMIT_BYTES),
        cache_seen: false,
        normalisation: false,
    }
}

/// What a command line configures, given which arguments are absolute
/// paths: flag pairs in any order, each flag at most once but the log
/// file, and a state directory required.
pub open spec fn parsed(args: Seq<Seq<char>>, absolute: Seq<bool>) -> Result<Scan, ArgumentFault> {
    match scan_from(args, absolute, 0, fresh_scan()) {
        Err(fault) => Err(fault),
        Ok(scan) => if scan.state_directory is None {
            Err(ArgumentFault::MissingStateDir)
        } else {
            Ok(scan)
        },
    }
}

/// Whether `arguments` is what the scan `scan` configures.
pub open spec fn configures(arguments: Arguments, scan: Scan) -> bool {
    &&& scan.state_directory == Some(arguments.state_directory@)
    &&& scan.log_file == opt_text(arguments.log_file)
    &&& scan.cache_limit == arguments.audio_cache_limit_bytes
    &&& scan.normalisation == arguments.normalisation
}

/// The text of an optional argument.
pub open spec fn opt_text(text: Option<String>) -> Option<Seq<char>> {
    match text {
        Some(t) => Some(t@),
        None => None,
    }
}

/// The texts of a run of arguments.
pub open spec fn texts(args: Seq<String>) -> Seq<Seq<char>> {
    args.map_values(|arg: String| arg@)
}

/// Parses the command line, `absolute[k]` saying whether argument `k` is
/// an absolute path.
pub fn parse_arguments_with(arguments: &Vec<String>, absolute: &Vec<bool>) -> (result: Result<
    Arguments,
    ArgumentError,
>)
    requires
        absolute@.len() == arguments@.len(),
    ensures
        match parsed(texts(arguments@), absolute@) {
            Ok(scan) => result matches Ok(parsed_arguments) && configures(parsed_arguments, scan),
            Err(fault) => result matches Err(error) && error@ == fault,
        },
{
    let ghost args = texts(arguments@);
    let mut state_directory: Option<String> = None;
    let mut log_file: Option<String> = None;
    let mut cache_limit: Option<u64> = Some(AUDIO_CACHE_LIMIT_BYTES);
    let mut cache_seen = false;
    let mut normalisation = false;
    let mut index: usize = 0;
    while index < arguments.len()
        invariant
            args == texts(arguments@),
            absolute@.len() == arguments@.len(),
            index <= arguments@.len() + 1,
            scan_from(args, absolute@, 0, fresh_scan()) == scan_from(
                args,
                absolute@,
                index as int,
                Scan {
                    state_directory: opt_text(state_directory),
                    log_file: opt_text(log_file),
                    cache_limit,
                    cache_seen,
                    normalisation,
                },
            ),
        decreases arguments.len() - index,
    {
        let ghost acc = Scan {
            state_directory: opt_text(state_directory),
            log_file: opt_text(log_file),
            cache_limit,
            cache_seen,
            normalisation,
        };
        let name = &arguments[index];
        assert(args[index as int] == name@);
        if index + 1 >= arguments.len() {
            return Err(ArgumentError::MissingValue { name: name.clone() });
        }
        let value = &arguments[index + 1];
        assert(args[index + 1] == value@);
        let flag = name.as_str();
        proof {
            reveal_strlit("--state-dir");
            reveal_strlit("--log-file");
            reveal_strlit("--audio-cache-limit-mb");
            reveal_strlit("--normalisation");
            reveal_strlit("true");
            reveal_strlit("false");
        }
        if equal_text(flag, "--state-dir") {
            if state_directory.is_some() {
                return Err(ArgumentError::DuplicateStateDir);
            }
            if !absolute[index + 1] {
                return Err(ArgumentError::RelativeStateDir);
            }
            state_directory = Some(value.clone());
        } else if equal_text(flag, "--log-file") {
            log_file = Some(value.clone());
        } else if equal_text(flag, "--audio-cache-limit-mb") {
            if cache_seen {
                return Err(ArgumentError::DuplicateCacheLimit);
            }
            cache_seen = true;
            match parse_u64(value.as_str()) {
                None => {
                    return Err(ArgumentError::CacheLimitNotANumber);
                },
                Some(mb) => {
                    if mb == 0 {
                        cache_limit = None;
                    } else {
                        match mb.checked_mul(MEBIBYTE) {
                            Some(bytes) => {
                                cache_limit = Some(bytes);
                            },
                            None => {
                                return Err(ArgumentError::CacheLimitTooLarge);
                            },
                        }
                    }
                },
            }
        } else if equal_text(flag, "--normalisation") {
            if equal_text(value.as_str(), "true") {
                normalisation = true;
            } else if equal_text(value.as_str(), "false") {
                normalisation = false;
            } else {
                return Err(ArgumentError::NormalisationNotABoolean { value: value.clone() });
            }
        } else {
            return Err(ArgumentError::Unknown { name: name.clone() });
        }
        index = index + 2;
    }
    match state_directory {
        None => Err(ArgumentError::MissingStateDir),
        Some(state_directory) => Ok(
            Arguments { state_directory, log_file, audio_cache_limit_bytes: cache_limit, normalisation },
        ),
    }
}

/// Whether two texts are the same characters.
fn equal_text(a: &str, b: &str) -> (same: bool)
    ensures
        same == (a@ == b@),
{
    let n = a.unicode_len();
    if n != b.unicode_len() {
        return false;
    }
    let mut k: usize = 0;
    while k < n
        invariant
            n == a@.len(),
            n == b@.len(),
            k <= n,
            forall|m: int| 0 <= m < k ==> a@[m] == b@[m],
        decreases n - k,
    {
        if a.get_char(k) != b.get_char(k) {
            return false;
        }
        k = k + 1;
    }
    assert(a@ =~= b@);
    true
}

/// Parses the command line: `--state-dir <absolute path>` (required),
/// `--log-file <path>`, `--audio-cache-limit-mb <n>` (zero for unlimited)
/// and `--normalisation <true|false>`, in any order.
pub fn parse_arguments(arguments: Vec<String>) -> (result: Result<Arguments, ArgumentError>)
    ensures
        exists|absolute: Seq<bool>|
            {
                &&& absolute.len() == arguments@.len()
                &&& forall|k: int|
                    0 <= k < arguments@.len() && arguments@[k]@.len() == 0 ==> !absolute[k]
                &&& match #[trigger] parsed(texts(arguments@), absolute) {
                    Ok(scan) => result matches Ok(parsed_arguments) && configures(
                        parsed_arguments,
                        scan,
                    ),
                    Err(fault) => result matches Err(error) && error@ == fault,
                }
            },
{
    let mut absolute: Vec<bool> = Vec::new();
    let mut k: usize = 0;
    while k < arguments.len()
        invariant
            k <= arguments@.len(),
            absolute@.len() == k,
            forall|m: int| 0 <= m < k && arguments@[m]@.len() == 0 ==> !absolute@[m],
        decreases arguments.len() - k,
    {
        absolute.push(is_absolute_path(arguments[k].as_str()));
        k = k + 1;
    }
    parse_arguments_with(&arguments, &absolute)
}

/// The command line with the flag pairs at `i` and `i + 2` exchanged.
pub open spec fn swap_pairs<T>(items: Seq<T>, i: int) -> Seq<T> {
    items.update(i, items[i + 2]).update(i + 1, items[i + 3]).update(i + 2, items[i]).update(
        i + 3,
        items[i + 1],
    )
}

/// Two steps on different flags commute when they succeed in one order.
proof fn lemma_steps_commute(
    n1: Seq<char>,
    v1: Seq<char>,
    a1: bool,
    n2: Seq<char>,
    v2: Seq<char>,
    a2: bool,
    acc: Scan,
)
    requires
        n1 != n2,
        step(n1, v1, a1, acc) is Ok,
        step(n2, v2, a2, step(n1, v1, a1, acc)->Ok_0) is Ok,
    ensures
        step(n2, v2, a2, acc) is Ok,
        step(n1, v1, a1, step(n2, v2, a2, acc)->Ok_0) == step(n2, v2, a2, step(n1, v1, a1, acc)->Ok_0),
{
}

/// A scan from position `j` reads only the arguments from `j` on.
proof fn lemma_scan_reads_the_rest(
    args1: Seq<Seq<char>>,
    marks1: Seq<bool>,
    args2: Seq<Seq<char>>,
    marks2: Seq<bool>,
    j: int,
    acc: Scan,
)
    requires
        0 <= j,
        args1.len() == args2.len(),
        marks1.len() == args1.len(),
        marks2.len() == args2.len(),
        forall|k: int| j <= k < args1.len() ==> args1[k] == args2[k] && marks1[k] == marks2[k],
    ensures
        scan_from(args1, marks1, j, acc) == scan_from(args2, marks2, j, acc),
    decreases args1.len() - j,
{
    if j < args1.len() && j + 1 < args1.len() {
        match step(args1[j], args1[j + 1], marks1[j + 1], acc) {
            Err(_) => {},
            Ok(next) => {
                lemma_scan_reads_the_rest(args1, marks1, args2, marks2, j + 2, next);
            },
        }
    }
}

/// Exchanging two adjacent pairs of different flags at `i` leaves any
/// successful scan from an even distance `j` before them unchanged.
proof fn lemma_swap_from(args: Seq<Seq<char>>, marks: Seq<bool>, i: int, j: int, acc: Scan)
    requires
        0 <= j <= i,
        (i - j) % 2 == 0,
        i + 3 < args.len(),
        marks.len() == args.len(),
        args[i] != args[i + 2],
        scan_from(args, marks, j, acc) is Ok,
    ensures
        scan_from(swap_pairs(args, i), swap_pairs(marks, i), j, acc) == scan_from(args, marks, j, acc),
    decreases i - j,
{
    let swapped = swap_pairs(args, i);
    let swapped_marks = swap_pairs(marks, i);
    if j < i {
        assert(swapped[j] == args[j] && swapped[j + 1] == args[j + 1] && swapped_marks[j + 1]
            == marks[j + 1]);
        assert(step(args[j], args[j + 1], marks[j + 1], acc) is Ok);
        let next = step(args[j], args[j + 1], marks[j + 1], acc)->Ok_0;
        assert(scan_from(args, marks, j, acc) == scan_from(args, marks, j + 2, next));
        lemma_swap_from(args, marks, i, j + 2, next);
        assert(scan_from(swapped, swapped_marks, j, acc) == scan_from(
            swapped,
            swapped_marks,
            j + 2,
            next,
        ));
    } else {
        assert(step(args[i], args[i + 1], marks[i + 1], acc) is Ok);
        let first = step(args[i], args[i + 1], marks[i + 1], acc)->Ok_0;
        assert(scan_from(args, marks, i, acc) == scan_from(args, marks, i + 2, first));
        assert(scan_from(args, marks, i + 2, first) is Ok);
        assert(step(args[i + 2], args[i + 3], marks[i + 3], first) is Ok);
        let both = step(args[i + 2], args[i + 3], marks[i + 3], first)->Ok_0;
        assert(scan_from(args, marks, i + 2, first) == scan_from(args, marks, i + 4, both));
        lemma_steps_commute(
            args[i],
            args[i + 1],
            marks[i + 1],
            args[i + 2],
            args[i + 3],
            marks[i + 3],
            acc,
        );
        assert(swapped[i] == args[i + 2] && swapped[i + 1] == args[i + 3] && swapped_marks[i + 1]
            == marks[i + 3]);
        assert(swapped[i + 2] == args[i] && swapped[i + 3] == args[i + 1] && swapped_marks[i + 3]
            == marks[i + 1]);
        lemma_scan_reads_the_rest(swapped, swapped_marks, args, marks, i + 4, both);
        let other = step(args[i + 2], args[i + 3], marks[i + 3], acc)->Ok_0;
        assert(scan_from(swapped, swapped_marks, i, acc) == scan_from(swapped, swapped_marks, i + 2, other));
        assert(scan_from(swapped, swapped_marks, i + 2, other) == scan_from(
            swapped,
            swapped_marks,
            i + 4,
            both,
        ));
    }
}

/// The flags may come in any order: exchanging two neighbouring pairs of
/// different flags in a command line that parses configures exactly the
/// same thing.
pub proof fn lemma_flag_order_is_irrelevant(args: Seq<Seq<char>>, absolute: Seq<bool>, i: int)
    requires
        0 <= i,
        i % 2 == 0,
        i + 3 < args.len(),
        absolute.len() == args.len(),
        args[i] != args[i + 2],
        parsed(args, absolute) is Ok,
    ensures
        parsed(swap_pairs(args, i), swap_pairs(absolute, i)) == parsed(args, absolute),
{
    lemma_swap_from(args, absolute, i, 0, fresh_scan());
}

} // verus!
