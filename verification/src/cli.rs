//! What a command line asks for.

use crate::decimal::{Decimal, Num, decimal_exact_text};
use crate::text::{integer_text, parse_u64, same_text, texts};
use vstd::prelude::*;

verus! {

/// How long a run takes unless told otherwise, in seconds.
pub const DEFAULT_DURATION_S: u64 = 600;

/// How long a smoke test takes, in seconds.
pub const SMOKE_S: u64 = 30;

/// What to do.
#[derive(Debug)]
pub enum Command {
    Run,
    /// A, B and C for so many seconds.
    Trinity(u64),
    Smoke,
    Stats,
    /// A without orders for so many seconds.
    LiveDry(u64),
    /// A with orders for so many seconds.
    Live(u64),
    /// Take-profit orders at so many percent.
    PlaceTp(Decimal),
    /// Take-profit orders at what is no percentage.
    BadPercentage(String),
    HealthCheck,
    DeriveKeys,
    Discover,
    Help,
    Unknown(String),
}

/// What a [`Command`] says.
pub enum CommandView {
    Run,
    Trinity(int),
    Smoke,
    Stats,
    LiveDry(int),
    Live(int),
    PlaceTp(Num),
    BadPercentage(Seq<char>),
    HealthCheck,
    DeriveKeys,
    Discover,
    Help,
    Unknown(Seq<char>),
}

impl View for Command {
    type V = CommandView;

    open spec fn view(&self) -> CommandView {
        match self {
            Command::Run => CommandView::Run,
            Command::Trinity(s) => CommandView::Trinity(*s as int),
            Command::Smoke => CommandView::Smoke,
            Command::Stats => CommandView::Stats,
            Command::LiveDry(s) => CommandView::LiveDry(*s as int),
            Command::Live(s) => CommandView::Live(*s as int),
            Command::PlaceTp(d) => CommandView::PlaceTp(d@),
            Command::BadPercentage(s) => CommandView::BadPercentage(s@),
            Command::HealthCheck => CommandView::HealthCheck,
            Command::DeriveKeys => CommandView::DeriveKeys,
            Command::Discover => CommandView::Discover,
            Command::Help => CommandView::Help,
            Command::Unknown(s) => CommandView::Unknown(s@),
        }
    }
}

/// A word of a command line, or else `default`.
pub open spec fn word_or(args: Seq<Seq<char>>, i: int, default: Seq<char>) -> Seq<char> {
    if 0 <= i < args.len() {
        args[i]
    } else {
        default
    }
}

/// The duration that the word after the command sets. One that is no number of
/// seconds is passed over.
pub open spec fn duration_of(args: Seq<Seq<char>>) -> int {
    if args.len() > 2 {
        match integer_text(args[2], 0, u64::MAX as int) {
            Some(s) => s,
            None => DEFAULT_DURATION_S as int,
        }
    } else {
        DEFAULT_DURATION_S as int
    }
}

/// What a command line asks for. The first word is the program itself.
pub open spec fn command_of(args: Seq<Seq<char>>) -> CommandView {
    let word = word_or(args, 1, "run"@);
    if word == "run"@ {
        CommandView::Run
    } else if word == "trinity"@ {
        CommandView::Trinity(duration_of(args))
    } else if word == "smoke"@ {
        CommandView::Smoke
    } else if word == "stats"@ {
        CommandView::Stats
    } else if word == "live-dry"@ {
        CommandView::LiveDry(duration_of(args))
    } else if word == "live"@ {
        CommandView::Live(duration_of(args))
    } else if word == "place-tp"@ {
        let pct = word_or(args, 2, "15"@);
        match decimal_exact_text(pct) {
            Some(n) => CommandView::PlaceTp(n),
            None => CommandView::BadPercentage(pct),
        }
    } else if word == "health-check"@ {
        CommandView::HealthCheck
    } else if word == "derive-keys"@ {
        CommandView::DeriveKeys
    } else if word == "discover"@ {
        CommandView::Discover
    } else if word == "help"@ || word == "-h"@ || word == "--help"@ {
        CommandView::Help
    } else {
        CommandView::Unknown(word)
    }
}

fn duration(args: &Vec<String>) -> (r: u64)
    ensures
        r == duration_of(texts(args@)),
{
    if args.len() > 2 {
        assert(texts(args@)[2] == args@[2]@);
        match parse_u64(args[2].as_str()) {
            Some(s) => s,
            None => DEFAULT_DURATION_S,
        }
    } else {
        DEFAULT_DURATION_S
    }
}

/// What a command line asks for.
pub fn parse_command(args: &Vec<String>) -> (r: Command)
    ensures
        r@ == command_of(texts(args@)),
{
    let word: &str = if args.len() > 1 {
        assert(texts(args@)[1] == args@[1]@);
        args[1].as_str()
    } else {
        "run"
    };
    if same_text(word, "run") {
        Command::Run
    } else if same_text(word, "trinity") {
        Command::Trinity(duration(args))
    } else if same_text(word, "smoke") {
        Command::Smoke
    } else if same_text(word, "stats") {
        Command::Stats
    } else if same_text(word, "live-dry") {
        Command::LiveDry(duration(args))
    } else if same_text(word, "live") {
        Command::Live(duration(args))
    } else if same_text(word, "place-tp") {
        let pct: &str = if args.len() > 2 {
            assert(texts(args@)[2] == args@[2]@);
            args[2].as_str()
        } else {
            "15"
        };
        match Decimal::parse_exact(pct) {
            Some(d) => Command::PlaceTp(d),
            None => Command::BadPercentage(pct.to_string()),
        }
    } else if same_text(word, "health-check") {
        Command::HealthCheck
    } else if same_text(word, "derive-keys") {
        Command::DeriveKeys
    } else if same_text(word, "discover") {
        Command::Discover
    } else if same_text(word, "help") || same_text(word, "-h") || same_text(word, "--help") {
        Command::Help
    } else {
        Command::Unknown(word.to_string())
    }
}

/// Law: each word asks for its own command, and no word for another's; without a word the
/// bot runs, and a word that is none of these is unknown.
pub proof fn each_word_asks_for_its_command(args: Seq<Seq<char>>)
    ensures
        ({
            let c = command_of(args);
            let word = if args.len() > 1 {
                args[1]
            } else {
                "run"@
            };
            &&& c is Run <==> word == "run"@
            &&& c is Trinity <==> word == "trinity"@
            &&& c is Smoke <==> word == "smoke"@
            &&& c is Stats <==> word == "stats"@
            &&& c is LiveDry <==> word == "live-dry"@
            &&& c is Live <==> word == "live"@
            &&& c is PlaceTp || c is BadPercentage <==> word == "place-tp"@
            &&& c is HealthCheck <==> word == "health-check"@
            &&& c is DeriveKeys <==> word == "derive-keys"@
            &&& c is Discover <==> word == "discover"@
            &&& c is Help <==> word == "help"@ || word == "-h"@ || word == "--help"@
            &&& c matches CommandView::Unknown(w) ==> w == word
        }),
{
    reveal_strlit("run");
    reveal_strlit("trinity");
    reveal_strlit("smoke");
    reveal_strlit("stats");
    reveal_strlit("live-dry");
    reveal_strlit("live");
    reveal_strlit("place-tp");
    reveal_strlit("health-check");
    reveal_strlit("derive-keys");
    reveal_strlit("discover");
    reveal_strlit("help");
    reveal_strlit("-h");
    reveal_strlit("--help");
    assert("run"@.len() == 3 && "trinity"@.len() == 7 && "smoke"@.len() == 5);
    assert("stats"@.len() == 5 && "live-dry"@.len() == 8 && "live"@.len() == 4);
    assert("place-tp"@.len() == 8 && "health-check"@.len() == 12 && "derive-keys"@.len() == 11);
    assert("discover"@.len() == 8 && "help"@.len() == 4 && "-h"@.len() == 2);
    assert("--help"@.len() == 6);
    assert("smoke"@[1] == 'm' && "stats"@[1] == 't');
    assert("live-dry"@[0] == 'l' && "place-tp"@[0] == 'p' && "discover"@[0] == 'd');
    assert("live"@[0] == 'l' && "help"@[0] == 'h');
}

/// Law: a run takes the seconds that the word after its command writes, ten minutes where
/// there is none or it writes no number; take-profit orders are placed at the percentage
/// that the word after writes, at fifteen where there is none.
pub proof fn the_word_after_sets_the_figure(args: Seq<Seq<char>>)
    ensures
        ({
            let seconds = if args.len() > 2 && integer_text(
                args[2],
                0,
                0xffff_ffff_ffff_ffff,
            ) is Some {
                integer_text(args[2], 0, 0xffff_ffff_ffff_ffff)->0
            } else {
                600
            };
            let pct = if args.len() > 2 {
                args[2]
            } else {
                "15"@
            };
            &&& command_of(args) matches CommandView::Trinity(s) ==> s == seconds
            &&& command_of(args) matches CommandView::LiveDry(s) ==> s == seconds
            &&& command_of(args) matches CommandView::Live(s) ==> s == seconds
            &&& command_of(args) matches CommandView::PlaceTp(n) ==> decimal_exact_text(pct)
                == Some(n)
            &&& command_of(args) matches CommandView::BadPercentage(s) ==> s == pct
                && decimal_exact_text(pct) is None
        }),
{
}

} // verus!
