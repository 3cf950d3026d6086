//! The core's required inputs at its command-line edge: the human-readable
//! experiment duration, and the opaque backend key/value flags that are
//! passed through to the adapter untouched.
//!
//! Trailing arguments become flag pairs: an argument holding `=` splits at
//! its first `=`; otherwise the argument (with leading `--` pairs removed)
//! names a flag whose value is the following argument, and a trailing flag
//! with no following argument is dropped.
use vstd::prelude::*;

use vstd::string::StrSliceExecFns;

verus! {

/// Where the first `=` sits in `s` at or after `i`, or `-1` when there is
/// none.
pub open spec fn eq_pos_from(s: Seq<char>, i: int) -> int
    decreases s.len() - i,
{
    if i < 0 || i >= s.len() {
        -1
    } else if s[i] == '=' {
        i
    } else {
        eq_pos_from(s, i + 1)
    }
}

/// The key/value pair an argument holding `=` splits into, if it holds one.
pub open spec fn split_at_eq(arg: Seq<char>) -> Option<(Seq<char>, Seq<char>)> {
    let p = eq_pos_from(arg, 0);
    if p >= 0 {
        Some((arg.take(p), arg.skip(p + 1)))
    } else {
        None
    }
}

/// How many leading characters `--`-stripping removes: two for each
/// leading `--` pair.
pub open spec fn dash_prefix_len(s: Seq<char>) -> int
    decreases s.len(),
{
    if s.len() >= 2 && s[0] == '-' && s[1] == '-' {
        2 + dash_prefix_len(s.skip(2))
    } else {
        0
    }
}

/// The flag pairs a trailing-argument list parses into, in order.
pub open spec fn flags_of(args: Seq<Seq<char>>) -> Seq<(Seq<char>, Seq<char>)>
    decreases args.len(),
{
    if args.len() == 0 {
        Seq::empty()
    } else {
        match split_at_eq(args[0]) {
            Some(kv) => seq![kv] + flags_of(args.drop_first()),
            None => {
                let key = args[0].skip(dash_prefix_len(args[0]));
                if args.len() >= 2 {
                    seq![(key, args[1])] + flags_of(args.skip(2))
                } else {
                    Seq::empty()
                }
            },
        }
    }
}

/// The value of the last pair carrying `key`, if any: later flags override
/// earlier ones.
pub open spec fn lookup(pairs: Seq<(Seq<char>, Seq<char>)>, key: Seq<char>) -> Option<
    Seq<char>,
>
    decreases pairs.len(),
{
    if pairs.len() == 0 {
        None
    } else if pairs.last().0 == key {
        Some(pairs.last().1)
    } else {
        lookup(pairs.drop_last(), key)
    }
}

/// Backend-specific key/value flags, passed through to the adapter
/// untouched.
pub struct Config {
    pairs: Vec<(String, String)>,
}

impl View for Config {
    type V = Seq<(Seq<char>, Seq<char>)>;

    closed spec fn view(&self) -> Seq<(Seq<char>, Seq<char>)> {
        self.pairs.deep_view()
    }
}

impl Config {
    /// Parses the trailing arguments into flag pairs.
    pub fn from_args(args: &Vec<String>) -> (c: Config)
        ensures
            c@ == flags_of(args.deep_view()),
    {
        let ghost view_args = args.deep_view();
        let mut pairs: Vec<(String, String)> = Vec::new();
        let mut i: usize = 0;
        proof {
            assert(view_args.skip(0) =~= view_args);
            assert(pairs.deep_view() =~= Seq::<(Seq<char>, Seq<char>)>::empty());
        }
        #[verifier::loop_isolation(false)]
        while i < args.len()
            invariant
                0 <= i <= args.len(),
                pairs.deep_view() + flags_of(view_args.skip(i as int)) == flags_of(
                    view_args,
                ),
            decreases args.len() - i,
        {
            let arg = &args[i];
            let ghost rest = view_args.skip(i as int);
            proof {
                assert(rest[0] == arg@);
            }
            let ghost prev_pairs = pairs.deep_view();
            match split_arg_at_eq(arg) {
                Some((key, value)) => {
                    proof {
                        assert(rest.drop_first() =~= view_args.skip(i + 1));
                    }
                    pairs.push((key, value));
                    proof {
                        let kv = split_at_eq(arg@).unwrap();
                        assert(pairs.deep_view() =~= prev_pairs.push(kv));
                        assert(prev_pairs.push(kv) + flags_of(view_args.skip(i + 1))
                            =~= prev_pairs + (seq![kv] + flags_of(view_args.skip(i + 1))));
                    }
                    i = i + 1;
                },
                None => {
                    let key = strip_dashes(arg);
                    if i + 1 < args.len() {
                        proof {
                            assert(rest[1] == args[i + 1]@);
                            assert(rest.skip(2) =~= view_args.skip(i + 2));
                        }
                        let value = args[i + 1].clone();
                        pairs.push((key, value));
                        proof {
                            let kv = (arg@.skip(dash_prefix_len(arg@)), args@[i as int
                                + 1]@);
                            assert(pairs.deep_view() =~= prev_pairs.push(kv));
                            assert(prev_pairs.push(kv) + flags_of(view_args.skip(i + 2))
                                =~= prev_pairs + (seq![kv] + flags_of(
                                view_args.skip(i + 2),
                            )));
                        }
                        i = i + 2;
                    } else {
                        proof {
                            assert(view_args.skip(i + 1) =~= Seq::<Seq<char>>::empty());
                            assert(flags_of(rest) =~= Seq::<(Seq<char>, Seq<char>)>::empty());
                        }
                        i = i + 1;
                    }
                },
            }
        }
        proof {
            assert(view_args.skip(args.len() as int) =~= Seq::<Seq<char>>::empty());
            assert(pairs.deep_view() + flags_of(view_args.skip(args.len() as int))
                =~= pairs.deep_view());
        }
        Config { pairs }
    }

    /// The value of the given flag, if it was passed; when a flag was
    /// passed more than once, the last occurrence wins.
    pub fn get(&self, key: &str) -> (r: Option<String>)
        ensures
            match lookup(self@, key@) {
                Some(v) => r matches Some(s) && s@ == v,
                None => r is None,
            },
    {
        let wanted: String = key.to_owned();
        let mut j: usize = self.pairs.len();
        proof {
            assert(self@.take(self.pairs@.len() as int) =~= self@);
        }
        #[verifier::loop_isolation(false)]
        while j > 0
            invariant
                j <= self.pairs.len(),
                wanted@ == key@,
                lookup(self@, key@) == lookup(self@.take(j as int), key@),
            decreases j,
        {
            proof {
                assert(self@.take(j as int).drop_last() =~= self@.take(j - 1));
                assert(self@.take(j as int).last() == self@[j - 1]);
                assert(self@[j - 1] == (self.pairs@[j - 1].0@, self.pairs@[j - 1].1@));
            }
            if self.pairs[j - 1].0 == wanted {
                return Some(self.pairs[j - 1].1.clone());
            }
            j = j - 1;
        }
        proof {
            assert(self@.take(0) =~= Seq::<(Seq<char>, Seq<char>)>::empty());
        }
        None
    }
}

/// Splits an argument at its first `=`, if it holds one.
fn split_arg_at_eq(arg: &String) -> (r: Option<(String, String)>)
    ensures
        match split_at_eq(arg@) {
            Some(kv) => r matches Some(p) && p.0@ == kv.0 && p.1@ == kv.1,
            None => r is None,
        },
{
    let s = arg.as_str();
    let n = s.unicode_len();
    let mut i: usize = 0;
    #[verifier::loop_isolation(false)]
    while i < n
        invariant
            0 <= i <= n,
            eq_pos_from(arg@, 0) == eq_pos_from(arg@, i as int),
            forall|k: int| 0 <= k < i ==> arg@[k] != '=',
        decreases n - i,
    {
        if s.get_char(i) == '=' {
            let key = s.substring_char(0, i).to_owned();
            let value = s.substring_char(i + 1, n).to_owned();
            proof {
                assert(eq_pos_from(arg@, i as int) == i);
                assert(key@ =~= arg@.take(i as int));
                assert(value@ =~= arg@.skip(i + 1));
            }
            return Some((key, value));
        }
        i = i + 1;
    }
    assert(eq_pos_from(arg@, n as int) == -1);
    None
}

/// Removes every leading `--` pair from an argument.
fn strip_dashes(arg: &String) -> (r: String)
    ensures
        r@ == arg@.skip(dash_prefix_len(arg@)),
{
    let s = arg.as_str();
    let n = s.unicode_len();
    let mut start: usize = 0;
    proof {
        assert(arg@.skip(0) =~= arg@);
    }
    #[verifier::loop_isolation(false)]
    while start < n && start + 1 < n && s.get_char(start) == '-' && s.get_char(start + 1)
        == '-'
        invariant
            0 <= start <= n,
            dash_prefix_len(arg@) == start + dash_prefix_len(arg@.skip(start as int)),
        decreases n - start,
    {
        proof {
            let rest = arg@.skip(start as int);
            assert(rest[0] == arg@[start as int] && rest[1] == arg@[start + 1]);
            assert(rest.skip(2) =~= arg@.skip(start + 2));
        }
        start = start + 2;
    }
    proof {
        let rest = arg@.skip(start as int);
        if rest.len() >= 2 {
            assert(rest[0] == arg@[start as int] && rest[1] == arg@[start + 1]);
        }
        assert(dash_prefix_len(arg@.skip(start as int)) == 0);
    }
    s.substring_char(start, n).to_owned()
}

/// What humantime's duration grammar gives for a string, in nanoseconds.
pub uninterp spec fn parsed_duration(s: Seq<char>) -> Option<u128>;

/// An ASCII decimal digit.
pub open spec fn is_ascii_digit_char(c: char) -> bool {
    48 <= c as u32 && c as u32 <= 57
}

/// One of the ASCII unit spellings of the duration grammar.
pub open spec fn is_duration_unit(u: Seq<char>) -> bool {
    ||| u == "nanos"@
    ||| u == "nsec"@
    ||| u == "ns"@
    ||| u == "usec"@
    ||| u == "us"@
    ||| u == "millis"@
    ||| u == "msec"@
    ||| u == "ms"@
    ||| u == "seconds"@
    ||| u == "second"@
    ||| u == "secs"@
    ||| u == "sec"@
    ||| u == "s"@
    ||| u == "minutes"@
    ||| u == "minute"@
    ||| u == "mins"@
    ||| u == "min"@
    ||| u == "m"@
    ||| u == "hours"@
    ||| u == "hour"@
    ||| u == "hrs"@
    ||| u == "hr"@
    ||| u == "h"@
    ||| u == "days"@
    ||| u == "day"@
    ||| u == "d"@
    ||| u == "weeks"@
    ||| u == "week"@
    ||| u == "w"@
    ||| u == "months"@
    ||| u == "month"@
    ||| u == "M"@
    ||| u == "years"@
    ||| u == "year"@
    ||| u == "y"@
}

/// The accepted duration inputs: a bare zero, or one span of up to
/// nineteen digits followed directly by a unit. Nineteen digits keep the
/// span's value under what 64-bit seconds can hold, and a single span never
/// carries a fractional-nanosecond overflow, so the duration parser can
/// neither wrap nor panic on such an input.
pub open spec fn plain_duration_shape(s: Seq<char>) -> bool {
    s == "0"@ || exists|k: int|
        #![trigger s.skip(k)]
        1 <= k <= 19 && k < s.len() && (forall|i: int|
            0 <= i < k ==> is_ascii_digit_char(#[trigger] s[i])) && is_duration_unit(
            s.skip(k),
        )
}

/// A unit spelling is non-empty and never starts with a digit.
proof fn lemma_unit_first_char(u: Seq<char>)
    requires
        is_duration_unit(u),
    ensures
        u.len() >= 1,
        !is_ascii_digit_char(u[0]),
{
    reveal_strlit("nanos");
    reveal_strlit("nsec");
    reveal_strlit("ns");
    reveal_strlit("usec");
    reveal_strlit("us");
    reveal_strlit("millis");
    reveal_strlit("msec");
    reveal_strlit("ms");
    reveal_strlit("seconds");
    reveal_strlit("second");
    reveal_strlit("secs");
    reveal_strlit("sec");
    reveal_strlit("s");
    reveal_strlit("minutes");
    reveal_strlit("minute");
    reveal_strlit("mins");
    reveal_strlit("min");
    reveal_strlit("m");
    reveal_strlit("hours");
    reveal_strlit("hour");
    reveal_strlit("hrs");
    reveal_strlit("hr");
    reveal_strlit("h");
    reveal_strlit("days");
    reveal_strlit("day");
    reveal_strlit("d");
    reveal_strlit("weeks");
    reveal_strlit("week");
    reveal_strlit("w");
    reveal_strlit("months");
    reveal_strlit("month");
    reveal_strlit("M");
    reveal_strlit("years");
    reveal_strlit("year");
    reveal_strlit("y");
}

/// No cut other than the end of the maximal digit prefix can start a unit:
/// earlier cuts leave a digit in front, later cuts put a non-digit among
/// the required digits.
proof fn lemma_only_digit_prefix_cut(s: Seq<char>, k: int)
    requires
        0 <= k <= s.len(),
        forall|i: int| 0 <= i < k ==> is_ascii_digit_char(#[trigger] s[i]),
        k < s.len() ==> !is_ascii_digit_char(s[k]),
    ensures
        forall|k2: int|
            1 <= k2 <= 19 && k2 < s.len() && (forall|i: int|
                0 <= i < k2 ==> is_ascii_digit_char(#[trigger] s[i])) && k2 != k
                ==> !is_duration_unit(#[trigger] s.skip(k2)),
{
    assert forall|k2: int|
        1 <= k2 <= 19 && k2 < s.len() && (forall|i: int|
            0 <= i < k2 ==> is_ascii_digit_char(#[trigger] s[i])) && k2
            != k implies !is_duration_unit(#[trigger] s.skip(k2)) by {
        if k2 < k {
            assert(s.skip(k2)[0] == s[k2]);
            assert(is_ascii_digit_char(s[k2]));
            if is_duration_unit(s.skip(k2)) {
                lemma_unit_first_char(s.skip(k2));
            }
        } else {
            assert(k < k2 < s.len());
            assert(is_ascii_digit_char(s[k]));
        }
    }
}

/// Whether an ASCII decimal digit stands at the given position.
fn digit_at(s: &str, i: usize) -> (r: bool)
    requires
        i < s@.len(),
    ensures
        r == is_ascii_digit_char(s@[i as int]),
{
    let u = s.get_char(i) as u32;
    48 <= u && u <= 57
}

/// Whether a string holds exactly the given characters.
fn str_eq(a: &String, b: &str) -> (r: bool)
    ensures
        r == (a@ == b@),
{
    let owned: String = b.to_owned();
    *a == owned
}

/// Decides [`plain_duration_shape`]: a bare zero, or one run of up to
/// nineteen digits followed directly by a known unit spelling.
fn has_plain_duration_shape(s: &str) -> (r: bool)
    ensures
        r == plain_duration_shape(s@),
{
    let n = s.unicode_len();
    proof {
        reveal_strlit("0");
    }
    if n == 1 && s.get_char(0) == '0' {
        proof {
            assert(s@ =~= "0"@);
        }
        return true;
    }
    let mut k: usize = 0;
    #[verifier::loop_isolation(false)]
    while k < n && digit_at(s, k)
        invariant
            k <= n,
            forall|i: int| 0 <= i < k ==> is_ascii_digit_char(#[trigger] s@[i]),
        decreases n - k,
    {
        k = k + 1;
    }
    if k == 0 || k > 19 || k == n {
        proof {
            lemma_only_digit_prefix_cut(s@, k as int);
        }
        return false;
    }
    let suffix: String = s.substring_char(k, n).to_owned();
    proof {
        assert(suffix@ =~= s@.skip(k as int));
    }
    let matched = str_eq(&suffix, "nanos") || str_eq(&suffix, "nsec") || str_eq(&suffix, "ns")
        || str_eq(&suffix, "usec") || str_eq(&suffix, "us") || str_eq(&suffix, "millis")
        || str_eq(&suffix, "msec") || str_eq(&suffix, "ms") || str_eq(&suffix, "seconds")
        || str_eq(&suffix, "second") || str_eq(&suffix, "secs") || str_eq(&suffix, "sec")
        || str_eq(&suffix, "s") || str_eq(&suffix, "minutes") || str_eq(&suffix, "minute")
        || str_eq(&suffix, "mins") || str_eq(&suffix, "min") || str_eq(&suffix, "m")
        || str_eq(&suffix, "hours") || str_eq(&suffix, "hour") || str_eq(&suffix, "hrs")
        || str_eq(&suffix, "hr") || str_eq(&suffix, "h") || str_eq(&suffix, "days")
        || str_eq(&suffix, "day") || str_eq(&suffix, "d") || str_eq(&suffix, "weeks")
        || str_eq(&suffix, "week") || str_eq(&suffix, "w") || str_eq(&suffix, "months")
        || str_eq(&suffix, "month") || str_eq(&suffix, "M") || str_eq(&suffix, "years")
        || str_eq(&suffix, "year") || str_eq(&suffix, "y");
    proof {
        if !matched {
            lemma_only_digit_prefix_cut(s@, k as int);
            assert(!is_duration_unit(s@.skip(k as int)));
        }
    }
    matched
}

/// Relies on humantime's `parse_duration`: the value of a duration string
/// is a function of its characters alone. The precondition keeps to single
/// bounded spans, on which the parser's checked arithmetic cannot reach
/// its one panicking carry at the far end of its range.
#[verifier::external_body]
fn parse_human_duration(s: &str) -> (r: Option<u128>)
    requires
        plain_duration_shape(s@),
    ensures
        r == parsed_duration(s@),
{
    match humantime::parse_duration(s) {
        Ok(d) => Some(d.as_nanos()),
        Err(_) => None,
    }
}

/// Parses a human-readable duration (such as `10s`, `5m` or `1h`) into
/// nanoseconds. Rejected: inputs outside the accepted shape (one span of
/// up to nineteen digits plus a unit, or a bare zero), strings the
/// duration grammar refuses, and durations beyond what 64-bit nanoseconds
/// can hold.
pub fn parse_duration_str(s: &str) -> (r: Result<u64, String>)
    ensures
        !plain_duration_shape(s@) ==> r is Err,
        plain_duration_shape(s@) ==> match parsed_duration(s@) {
            Some(n) => if n <= u64::MAX {
                r == Ok::<u64, String>(n as u64)
            } else {
                r is Err
            },
            None => r is Err,
        },
{
    if !has_plain_duration_shape(s) {
        return Err("invalid duration: use forms like '10s', '5m', '1h'".to_owned());
    }
    match parse_human_duration(s) {
        Some(n) => {
            if n <= 0xFFFF_FFFF_FFFF_FFFFu128 {
                Ok(n as u64)
            } else {
                Err("duration too large".to_owned())
            }
        },
        None => Err("invalid duration: use forms like '10s', '5m', '1h'".to_owned()),
    }
}

} // verus!
