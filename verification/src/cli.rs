//! The command-line settings and how each argument changes them.
use vstd::prelude::*;
use crate::color::{color_from_text, ColorError, MyColor};
use crate::text::{
    begins_with, chars_of, decimal_text, is_digit, is_text, lemma_decimal_text,
    parse_unsigned, parse_unsigned_range,
};

verus! {

/// The settings the command line chooses, all but the amplification (a
/// fractional number, which the caller reads).
#[derive(Debug)]
pub struct CLI {
    /// Print the settings before starting.
    pub dbg: bool,
    /// Number of bars.
    pub bars: usize,
    /// Audio source device, if one was named.
    pub src: Option<String>,
    /// Colors of the gradient, in the order given.
    pub colors: Vec<MyColor>,
    /// Show the two channels apart rather than mixed.
    pub stereo: bool,
}

/// The kinds of command-line argument.
#[derive(Debug, PartialEq, Eq, Clone, Copy, Structural)]
pub enum ArgClass {
    Debug,
    Help,
    Bars,
    Amplification,
    Source,
    Color,
    Mono,
    Stereo,
}

/// What applying one argument came to.
#[derive(Debug, Clone)]
pub enum ArgOutcome {
    /// The settings took the argument.
    Applied,
    /// The help text is asked for (also the answer to an unknown argument).
    ShowHelp,
    /// The amplification is set to the number this text writes.
    Amplification(String),
    /// The number of bars is not an unsigned whole number.
    InvalidBars,
    /// The color text is refused.
    InvalidColor(ColorError),
}

pub open spec fn is_debug_flag(a: Seq<char>) -> bool {
    a == "-d"@ || a == "--debug"@ || a == " --DEBUG"@ || a == "-D"@
}

pub open spec fn is_help_flag(a: Seq<char>) -> bool {
    a == "-h"@ || a == "--help"@ || a == " --HELP"@ || a == "-H"@
}

/// The kind of an argument; the checks are made in this order, and an
/// argument that none of them takes asks for help.
pub open spec fn arg_class(a: Seq<char>) -> ArgClass {
    if is_debug_flag(a) {
        ArgClass::Debug
    } else if is_help_flag(a) {
        ArgClass::Help
    } else if "-n="@.is_prefix_of(a) || "--n_bars="@.is_prefix_of(a) {
        ArgClass::Bars
    } else if "-amp="@.is_prefix_of(a) || "--amplification="@.is_prefix_of(a) {
        ArgClass::Amplification
    } else if "-src="@.is_prefix_of(a) || "--src_audio="@.is_prefix_of(a) {
        ArgClass::Source
    } else if "--color="@.is_prefix_of(a) || "-c="@.is_prefix_of(a) {
        ArgClass::Color
    } else if a == "--mono"@ || a == "-m"@ {
        ArgClass::Mono
    } else if a == "--stereo"@ || a == "-s"@ {
        ArgClass::Stereo
    } else {
        ArgClass::Help
    }
}

/// The text after the first `=` of an argument (empty if it has none).
pub open spec fn after_first_eq(a: Seq<char>) -> Seq<char>
    decreases a.len(),
{
    if a.len() == 0 {
        a
    } else if a[0] == '=' {
        a.drop_first()
    } else {
        after_first_eq(a.drop_first())
    }
}

/// The number of bars an argument asks for, if it writes one.
pub open spec fn bars_value(a: Seq<char>) -> Option<int> {
    parse_unsigned(after_first_eq(a), usize::MAX as int)
}

/// The text after an option name that ends in its first `=`.
proof fn lemma_after_option(p: Seq<char>, q: Seq<char>)
    requires
        p.len() > 0,
        p.last() == '=',
        forall|i: int| 0 <= i < p.len() - 1 ==> p[i] != '=',
    ensures
        after_first_eq(p + q) == q,
    decreases p.len(),
{
    if p.len() == 1 {
        assert((p + q).drop_first() =~= q);
    } else {
        assert(p[0] != '=');
        lemma_after_option(p.drop_first(), q);
        assert((p + q).drop_first() =~= p.drop_first() + q);
    }
}

/// Every bar count, written in decimal after `-n=` or `--n_bars=`, is read
/// as a bar-count argument with exactly that count.
pub proof fn lemma_bar_count_argument(n: usize)
    ensures
        arg_class("-n="@ + decimal_text(n as nat)) == ArgClass::Bars,
        bars_value("-n="@ + decimal_text(n as nat)) == Some(n as int),
        arg_class("--n_bars="@ + decimal_text(n as nat)) == ArgClass::Bars,
        bars_value("--n_bars="@ + decimal_text(n as nat)) == Some(n as int),
{
    reveal_strlit("-d");
    reveal_strlit("--debug");
    reveal_strlit(" --DEBUG");
    reveal_strlit("-D");
    reveal_strlit("-h");
    reveal_strlit("--help");
    reveal_strlit(" --HELP");
    reveal_strlit("-H");
    reveal_strlit("-n=");
    reveal_strlit("--n_bars=");
    let d = decimal_text(n as nat);
    lemma_decimal_text(n as nat);
    assert(is_digit(d[0]));
    let short = "-n="@ + d;
    let long = "--n_bars="@ + d;
    assert(short.subrange(0, 3) =~= "-n="@);
    assert(long.subrange(0, 9) =~= "--n_bars="@);
    assert(short[1] == 'n');
    assert(long[1] == '-' && long[0] == '-' && long[2] == 'n');
    lemma_after_option("-n="@, d);
    lemma_after_option("--n_bars="@, d);
}

/// Whatever follows `-src=`, `-amp=` or `-c=` is taken as the source
/// device, the amplification text or the color text.
pub proof fn lemma_option_values(q: Seq<char>)
    ensures
        arg_class("-src="@ + q) == ArgClass::Source,
        after_first_eq("-src="@ + q) == q,
        arg_class("-amp="@ + q) == ArgClass::Amplification,
        after_first_eq("-amp="@ + q) == q,
        arg_class("-c="@ + q) == ArgClass::Color,
        after_first_eq("-c="@ + q) == q,
{
    reveal_strlit("-d");
    reveal_strlit("--debug");
    reveal_strlit(" --DEBUG");
    reveal_strlit("-D");
    reveal_strlit("-h");
    reveal_strlit("--help");
    reveal_strlit(" --HELP");
    reveal_strlit("-H");
    reveal_strlit("-n=");
    reveal_strlit("--n_bars=");
    reveal_strlit("-amp=");
    reveal_strlit("--amplification=");
    reveal_strlit("-src=");
    reveal_strlit("--src_audio=");
    reveal_strlit("--color=");
    reveal_strlit("-c=");
    let src = "-src="@ + q;
    let amp = "-amp="@ + q;
    let col = "-c="@ + q;
    assert(src.subrange(0, 5) =~= "-src="@);
    assert(amp.subrange(0, 5) =~= "-amp="@);
    assert(col.subrange(0, 3) =~= "-c="@);
    assert(src[0] == '-' && src[1] == 's');
    assert(amp[0] == '-' && amp[1] == 'a');
    assert(col[0] == '-' && col[1] == 'c');
    lemma_after_option("-src="@, q);
    lemma_after_option("-amp="@, q);
    lemma_after_option("-c="@, q);
}

proof fn lemma_texts_differ(a: Seq<char>, b: Seq<char>, i: int)
    requires
        0 <= i < a.len(),
        i < b.len(),
        a[i] != b[i],
    ensures
        a != b,
{
}

proof fn lemma_not_prefix(p: Seq<char>, a: Seq<char>, i: int)
    requires
        0 <= i < p.len(),
        i < a.len(),
        p[i] != a[i],
    ensures
        !p.is_prefix_of(a),
{
    if p.is_prefix_of(a) {
        assert(p[i] == a.subrange(0, p.len() as int)[i]);
    }
}

/// The debug and help flags, and the mono and stereo switches, are
/// recognised as such.
pub proof fn lemma_flag_arguments()
    ensures
        arg_class("-d"@) == ArgClass::Debug,
        arg_class("--debug"@) == ArgClass::Debug,
        arg_class(" --DEBUG"@) == ArgClass::Debug,
        arg_class("-D"@) == ArgClass::Debug,
        arg_class("-h"@) == ArgClass::Help,
        arg_class("--help"@) == ArgClass::Help,
        arg_class(" --HELP"@) == ArgClass::Help,
        arg_class("-H"@) == ArgClass::Help,
        arg_class("--mono"@) == ArgClass::Mono,
        arg_class("-m"@) == ArgClass::Mono,
        arg_class("--stereo"@) == ArgClass::Stereo,
        arg_class("-s"@) == ArgClass::Stereo,
{
    reveal_strlit("-d");
    reveal_strlit("--debug");
    reveal_strlit(" --DEBUG");
    reveal_strlit("-D");
    reveal_strlit("-h");
    reveal_strlit("--help");
    reveal_strlit(" --HELP");
    reveal_strlit("-H");
    reveal_strlit("-n=");
    reveal_strlit("--n_bars=");
    reveal_strlit("-amp=");
    reveal_strlit("--amplification=");
    reveal_strlit("-src=");
    reveal_strlit("--src_audio=");
    reveal_strlit("--color=");
    reveal_strlit("-c=");
    reveal_strlit("--mono");
    reveal_strlit("-m");
    reveal_strlit("--stereo");
    reveal_strlit("-s");
    lemma_texts_differ("-h"@, "-d"@, 1);
    assert("-h"@[1] == 'h' && "-D"@[1] == 'D');
    lemma_texts_differ("-h"@, "-D"@, 1);
    lemma_texts_differ(" --HELP"@, "--debug"@, 0);
    lemma_texts_differ("-H"@, "-d"@, 1);
    lemma_texts_differ("-H"@, "-D"@, 1);
    lemma_texts_differ("--mono"@, "--help"@, 2);
    lemma_not_prefix("-n="@, "--mono"@, 1);
    lemma_not_prefix("-amp="@, "--mono"@, 1);
    lemma_not_prefix("-src="@, "--mono"@, 1);
    lemma_not_prefix("-c="@, "--mono"@, 1);
    lemma_texts_differ("-m"@, "-d"@, 1);
    lemma_texts_differ("-m"@, "-D"@, 1);
    lemma_texts_differ("-m"@, "-h"@, 1);
    lemma_texts_differ("-m"@, "-H"@, 1);
    lemma_texts_differ("--stereo"@, " --DEBUG"@, 0);
    lemma_not_prefix("-n="@, "--stereo"@, 1);
    lemma_not_prefix("-amp="@, "--stereo"@, 1);
    lemma_not_prefix("-src="@, "--stereo"@, 1);
    lemma_not_prefix("--color="@, "--stereo"@, 2);
    lemma_not_prefix("-c="@, "--stereo"@, 1);
    lemma_texts_differ("-s"@, "-d"@, 1);
    lemma_texts_differ("-s"@, "-D"@, 1);
    lemma_texts_differ("-s"@, "-h"@, 1);
    lemma_texts_differ("-s"@, "-H"@, 1);
    lemma_texts_differ("-s"@, "-m"@, 1);
}

/// An argument that does not begin with `-` or a space is not an option:
/// it asks for help.
pub proof fn lemma_non_option_asks_help(a: Seq<char>)
    requires
        a.len() == 0 || (a[0] != '-' && a[0] != ' '),
    ensures
        arg_class(a) == ArgClass::Help,
{
    reveal_strlit("-d");
    reveal_strlit("--debug");
    reveal_strlit(" --DEBUG");
    reveal_strlit("-D");
    reveal_strlit("-h");
    reveal_strlit("--help");
    reveal_strlit(" --HELP");
    reveal_strlit("-H");
    reveal_strlit("-n=");
    reveal_strlit("--n_bars=");
    reveal_strlit("-amp=");
    reveal_strlit("--amplification=");
    reveal_strlit("-src=");
    reveal_strlit("--src_audio=");
    reveal_strlit("--color=");
    reveal_strlit("-c=");
    reveal_strlit("--mono");
    reveal_strlit("-m");
    reveal_strlit("--stereo");
    reveal_strlit("-s");
    if a.len() > 0 {
        lemma_texts_differ(a, "-d"@, 0);
        lemma_texts_differ(a, "--debug"@, 0);
        lemma_texts_differ(a, " --DEBUG"@, 0);
        lemma_texts_differ(a, "-D"@, 0);
        lemma_texts_differ(a, "-h"@, 0);
        lemma_texts_differ(a, "--help"@, 0);
        lemma_texts_differ(a, " --HELP"@, 0);
        lemma_texts_differ(a, "-H"@, 0);
        lemma_texts_differ(a, "--mono"@, 0);
        lemma_texts_differ(a, "-m"@, 0);
        lemma_texts_differ(a, "--stereo"@, 0);
        lemma_texts_differ(a, "-s"@, 0);
        lemma_not_prefix("-n="@, a, 0);
        lemma_not_prefix("--n_bars="@, a, 0);
        lemma_not_prefix("-amp="@, a, 0);
        lemma_not_prefix("--amplification="@, a, 0);
        lemma_not_prefix("-src="@, a, 0);
        lemma_not_prefix("--src_audio="@, a, 0);
        lemma_not_prefix("--color="@, a, 0);
        lemma_not_prefix("-c="@, a, 0);
    }
}

/// The kind of the argument `v`.
fn classify(v: &Vec<char>) -> (c: ArgClass)
    ensures
        c == arg_class(v@),
{
    if is_text(v, "-d") || is_text(v, "--debug") || is_text(v, " --DEBUG") || is_text(v, "-D") {
        ArgClass::Debug
    } else if is_text(v, "-h") || is_text(v, "--help") || is_text(v, " --HELP") || is_text(
        v,
        "-H",
    ) {
        ArgClass::Help
    } else if begins_with(v, "-n=") || begins_with(v, "--n_bars=") {
        ArgClass::Bars
    } else if begins_with(v, "-amp=") || begins_with(v, "--amplification=") {
        ArgClass::Amplification
    } else if begins_with(v, "-src=") || begins_with(v, "--src_audio=") {
        ArgClass::Source
    } else if begins_with(v, "--color=") || begins_with(v, "-c=") {
        ArgClass::Color
    } else if is_text(v, "--mono") || is_text(v, "-m") {
        ArgClass::Mono
    } else if is_text(v, "--stereo") || is_text(v, "-s") {
        ArgClass::Stereo
    } else {
        ArgClass::Help
    }
}

/// Where the text after the first `=` of `v` begins (the end of `v` if it
/// has none).
fn value_start(v: &Vec<char>) -> (start: usize)
    ensures
        start <= v.len(),
        v@.subrange(start as int, v.len() as int) == after_first_eq(v@),
{
    let n = v.len();
    let mut k: usize = 0;
    assert(v@.skip(0) =~= v@);
    while k < n && v[k] != '='
        invariant
            k <= n,
            n == v.len(),
            after_first_eq(v@) == after_first_eq(v@.skip(k as int)),
        decreases n - k,
    {
        assert(v@.skip(k as int).drop_first() =~= v@.skip(k + 1));
        k = k + 1;
    }
    if k == n {
        n
    } else {
        k + 1
    }
}

impl CLI {
    pub fn new() -> (cli: Self)
        ensures
            !cli.dbg,
            cli.bars == 5,
            cli.src is None,
            cli.colors@.len() == 0,
            cli.stereo,
    {
        Self { dbg: false, bars: 5, src: None, colors: Vec::new(), stereo: true }
    }

    /// Applies one command-line argument to the settings.
    pub fn apply_arg(&mut self, arg: &str) -> (out: ArgOutcome)
        ensures
            final(self).dbg == (old(self).dbg || arg_class(arg@) == ArgClass::Debug),
            final(self).bars == (if arg_class(arg@) == ArgClass::Bars && bars_value(arg@) is Some {
                bars_value(arg@)->0 as usize
            } else {
                old(self).bars
            }),
            arg_class(arg@) == ArgClass::Source ==> (final(self).src matches Some(s) && s@
                == after_first_eq(arg@)),
            arg_class(arg@) != ArgClass::Source ==> final(self).src == old(self).src,
            final(self).colors@ == (if arg_class(arg@) == ArgClass::Color && color_from_text(
                after_first_eq(arg@),
            ) is Ok {
                old(self).colors@.push(color_from_text(after_first_eq(arg@))->Ok_0)
            } else {
                old(self).colors@
            }),
            final(self).stereo == (if arg_class(arg@) == ArgClass::Mono {
                false
            } else if arg_class(arg@) == ArgClass::Stereo {
                true
            } else {
                old(self).stereo
            }),
            match arg_class(arg@) {
                ArgClass::Debug | ArgClass::Source | ArgClass::Mono | ArgClass::Stereo => out
                    == ArgOutcome::Applied,
                ArgClass::Help => out == ArgOutcome::ShowHelp,
                ArgClass::Bars => out == (if bars_value(arg@) is Some {
                    ArgOutcome::Applied
                } else {
                    ArgOutcome::InvalidBars
                }),
                ArgClass::Amplification => out matches ArgOutcome::Amplification(t) && t@
                    == after_first_eq(arg@),
                ArgClass::Color => out == (match color_from_text(after_first_eq(arg@)) {
                    Ok(_) => ArgOutcome::Applied,
                    Err(e) => ArgOutcome::InvalidColor(e),
                }),
            },
    {
        let v = chars_of(arg);
        let n = v.len();
        match classify(&v) {
            ArgClass::Debug => {
                self.dbg = true;
                ArgOutcome::Applied
            },
            ArgClass::Help => ArgOutcome::ShowHelp,
            ArgClass::Bars => {
                let start = value_start(&v);
                match parse_unsigned_range(&v, start, n, usize::MAX) {
                    Some(bars) => {
                        self.bars = bars;
                        ArgOutcome::Applied
                    },
                    None => ArgOutcome::InvalidBars,
                }
            },
            ArgClass::Amplification => {
                let start = value_start(&v);
                ArgOutcome::Amplification(arg.substring_char(start, n).to_owned())
            },
            ArgClass::Source => {
                let start = value_start(&v);
                self.src = Some(arg.substring_char(start, n).to_owned());
                ArgOutcome::Applied
            },
            ArgClass::Color => {
                let start = value_start(&v);
                match MyColor::parse(arg.substring_char(start, n)) {
                    Ok(color) => {
                        self.colors.push(color);
                        ArgOutcome::Applied
                    },
                    Err(e) => ArgOutcome::InvalidColor(e),
                }
            },
            ArgClass::Mono => {
                self.stereo = false;
                ArgOutcome::Applied
            },
            ArgClass::Stereo => {
                self.stereo = true;
                ArgOutcome::Applied
            },
        }
    }
}

} // verus!
