//! Command-line arguments of the headless mode.

use vstd::prelude::*;
use crate::text::{parse_u64, parse_u64_spec, str_eq};

verus! {

/// Seconds the pipeline plays in CLI mode unless `--duration` says
/// otherwise.
pub const DEFAULT_DURATION_SECS: u64 = 5;

/// What the command line asks for.
#[derive(Debug)]
pub struct Args {
    /// `--list`: print the devices and exit.
    pub list: bool,
    /// `--play <device>`, repeatable: devices to play to.
    pub play: Vec<String>,
    /// `--play-default`: play to every non-default output.
    pub play_default: bool,
    /// `--duration <seconds>`.
    pub duration: u64,
    /// `--self-test`: run the headless smoke check.
    pub self_test: bool,
}

/// The arguments as plain values.
#[verifier::ext_equal]
pub struct ArgsModel {
    pub list: bool,
    pub play: Seq<Seq<char>>,
    pub play_default: bool,
    pub duration: u64,
    pub self_test: bool,
}

/// The model of parsed arguments.
pub open spec fn args_model(a: Args) -> ArgsModel {
    ArgsModel {
        list: a.list,
        play: a.play@.map_values(|s: String| s@),
        play_default: a.play_default,
        duration: a.duration,
        self_test: a.self_test,
    }
}

/// Nothing asked: no listing, no devices, the default duration.
pub open spec fn default_args() -> ArgsModel {
    ArgsModel {
        list: false,
        play: Seq::empty(),
        play_default: false,
        duration: DEFAULT_DURATION_SECS,
        self_test: false,
    }
}

/// Reads the tokens left to right. Unknown tokens are skipped; a value
/// flag at the end without its value is ignored; a `--duration` value
/// that is not a `u64` keeps the duration as it was.
pub open spec fn parse_tokens(tokens: Seq<Seq<char>>, acc: ArgsModel) -> ArgsModel
    decreases tokens.len(),
{
    if tokens.len() == 0 {
        acc
    } else {
        let a = tokens[0];
        let rest = tokens.drop_first();
        if a == "--list"@ {
            parse_tokens(rest, ArgsModel { list: true, ..acc })
        } else if a == "--play"@ {
            if rest.len() > 0 {
                parse_tokens(rest.drop_first(), ArgsModel { play: acc.play.push(rest[0]), ..acc })
            } else {
                acc
            }
        } else if a == "--play-default"@ {
            parse_tokens(rest, ArgsModel { play_default: true, ..acc })
        } else if a == "--self-test"@ {
            parse_tokens(rest, ArgsModel { self_test: true, ..acc })
        } else if a == "--duration"@ {
            if rest.len() > 0 {
                let d = match parse_u64_spec(rest[0]) {
                    Some(n) => n,
                    None => acc.duration,
                };
                parse_tokens(rest.drop_first(), ArgsModel { duration: d, ..acc })
            } else {
                acc
            }
        } else {
            parse_tokens(rest, acc)
        }
    }
}

/// Parses the command-line arguments (without the program name).
pub fn parse_args(args: Vec<String>) -> (r: Args)
    ensures
        args_model(r) == parse_tokens(args@.map_values(|s: String| s@), default_args()),
{
    let ghost tokens = args@.map_values(|s: String| s@);
    let mut out = Args {
        list: false,
        play: Vec::new(),
        play_default: false,
        duration: DEFAULT_DURATION_SECS,
        self_test: false,
    };
    assert(out.play@.map_values(|s: String| s@) =~= Seq::<Seq<char>>::empty());
    assert(args_model(out) =~= default_args());
    assert(tokens.skip(0) =~= tokens);
    let n = args.len();
    let mut i: usize = 0;
    while i < n
        invariant
            n == args@.len(),
            tokens == args@.map_values(|s: String| s@),
            i <= n,
            parse_tokens(tokens, default_args()) == parse_tokens(tokens.skip(i as int), args_model(out)),
        decreases n - i,
    {
        let ghost before = args_model(out);
        let ghost rest = tokens.skip(i as int);
        assert(rest[0] == args@[i as int]@);
        assert(rest.drop_first() =~= tokens.skip(i + 1));
        let a = args[i].as_str();
        if str_eq(a, "--list") {
            out.list = true;
            assert(args_model(out) =~= ArgsModel { list: true, ..before });
            i = i + 1;
        } else if str_eq(a, "--play") {
            if i + 1 < n {
                let ghost pre_play = out.play@;
                out.play.push(args[i + 1].clone());
                assert(out.play@.map_values(|s: String| s@) =~= pre_play.map_values(|s: String| s@).push(args@[i + 1]@));
                assert(rest.drop_first()[0] == args@[i + 1]@);
                assert(rest.drop_first().drop_first() =~= tokens.skip(i + 2));
                assert(args_model(out) =~= ArgsModel { play: before.play.push(args@[i + 1]@), ..before });
                i = i + 2;
            } else {
                assert(rest.drop_first().len() == 0);
                assert(tokens.skip(n as int).len() == 0);
                i = n;
            }
        } else if str_eq(a, "--play-default") {
            out.play_default = true;
            assert(args_model(out) =~= ArgsModel { play_default: true, ..before });
            i = i + 1;
        } else if str_eq(a, "--self-test") {
            out.self_test = true;
            assert(args_model(out) =~= ArgsModel { self_test: true, ..before });
            i = i + 1;
        } else if str_eq(a, "--duration") {
            if i + 1 < n {
                assert(rest.drop_first()[0] == args@[i + 1]@);
                assert(rest.drop_first().drop_first() =~= tokens.skip(i + 2));
                match parse_u64(args[i + 1].as_str()) {
                    Some(d) => {
                        out.duration = d;
                    },
                    None => {},
                }
                assert(args_model(out) =~= ArgsModel { duration: out.duration, ..before });
                i = i + 2;
            } else {
                assert(rest.drop_first().len() == 0);
                assert(tokens.skip(n as int).len() == 0);
                i = n;
            }
        } else {
            i = i + 1;
        }
    }
    assert(tokens.skip(n as int).len() == 0);
    out
}

} // verus!
