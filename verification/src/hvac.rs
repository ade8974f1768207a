//! The command line of the A/C amplifier reader:
//! `prius-hvac [--isotp firmware|host] [PORT]`.

use vstd::prelude::*;

use crate::isotp::client::IsoTpPath;
use crate::text::push_text;

verus! {

/// What the command line asks for.
pub struct Args {
    pub port: String,
    pub isotp: IsoTpPath,
}

/// What an [`Args`] holds.
pub struct ArgsView {
    pub port: Seq<char>,
    pub isotp: IsoTpPath,
}

impl View for Args {
    type V = ArgsView;

    open spec fn view(&self) -> ArgsView {
        ArgsView { port: self.port@, isotp: self.isotp }
    }
}

/// How `{:?}` prints a string: in quotes, with escapes.
pub uninterp spec fn quoted(s: Seq<char>) -> Seq<char>;

/// The `Debug` output of a `str`: a function of its text alone.
#[verifier::external_body]
fn debug_str(s: &str) -> (r: String)
    ensures
        r@ == quoted(s@),
{
    format!("{:?}", s)
}

/// The words of a command line.
pub open spec fn words(args: Seq<String>) -> Seq<Seq<char>> {
    args.map_values(|a: String| a@)
}

/// How `{:?}` prints a word that may be missing.
pub open spec fn quoted_opt(w: Option<Seq<char>>) -> Seq<char> {
    match w {
        Some(s) => "Some("@ + quoted(s) + ")"@,
        None => "None"@,
    }
}

/// The path a word names.
pub open spec fn path_named(w: Option<Seq<char>>) -> Option<IsoTpPath> {
    match w {
        Some(s) => if s == "firmware"@ {
            Some(IsoTpPath::Firmware)
        } else if s == "host"@ {
            Some(IsoTpPath::Host)
        } else {
            None
        },
        None => None,
    }
}

/// What the words from `at` on ask for, after a port and a path seen so far; or
/// what to tell the user.
pub open spec fn parsed(
    args: Seq<Seq<char>>,
    at: int,
    port: Option<Seq<char>>,
    isotp: IsoTpPath,
) -> Result<(Option<Seq<char>>, IsoTpPath), Seq<char>>
    decreases args.len() - at,
{
    if at < 0 || at >= args.len() {
        Ok((port, isotp))
    } else if args[at] == "--isotp"@ {
        let next = if at + 1 < args.len() {
            Some(args[at + 1])
        } else {
            None
        };
        match path_named(next) {
            Some(path) => parsed(args, at + 2, port, path),
            None => Err("--isotp expects firmware|host, got "@ + quoted_opt(next)),
        }
    } else if args[at] == "--help"@ || args[at] == "-h"@ {
        Err("usage: prius-hvac [--isotp firmware|host] [PORT]"@)
    } else if port is None {
        parsed(args, at + 1, Some(args[at]), isotp)
    } else {
        Err("unexpected argument "@ + quoted(args[at]))
    }
}

/// What a command line asks for, given what `$MVCI_PORT` says.
pub open spec fn args_asked(args: Seq<Seq<char>>, env: Option<Seq<char>>) -> Result<
    ArgsView,
    Seq<char>,
> {
    match parsed(args, 0, None, IsoTpPath::Firmware) {
        Err(e) => Err(e),
        Ok((port, isotp)) => Ok(
            ArgsView {
                port: match (port, env) {
                    (Some(p), _) => p,
                    (None, Some(p)) => p,
                    (None, None) => "/dev/ttyUSB0"@,
                },
                isotp,
            },
        ),
    }
}

fn is_word(s: &String, word: &'static str) -> (r: bool)
    ensures
        r == (s@ == word@),
{
    *s == word.to_owned()
}

/// Read the command line (without the program's name); `env` is what
/// `$MVCI_PORT` says. On error, the text to show.
pub fn parse_args(args: &Vec<String>, env: Option<String>) -> (r: Result<Args, String>)
    ensures
        ({
            let e = match env {
                Some(p) => Some(p@),
                None => None,
            };
            match r {
                Ok(a) => args_asked(words(args@), e) == Ok::<ArgsView, Seq<char>>(a@),
                Err(text) => args_asked(words(args@), e) == Err::<ArgsView, Seq<char>>(text@),
            }
        }),
{
    let mut port: Option<String> = None;
    let mut isotp = IsoTpPath::Firmware;
    let mut at: usize = 0;
    let ghost w = words(args@);
    while at < args.len()
        invariant
            at <= args.len() + 1,
            w == words(args@),
            parsed(
                w,
                at as int,
                match port {
                    Some(p) => Some(p@),
                    None => None,
                },
                isotp,
            ) == parsed(w, 0, None, IsoTpPath::Firmware),
        decreases args.len() + 1 - at,
    {
        let a = &args[at];
        assert(w[at as int] == a@);
        if is_word(a, "--isotp") {
            if at + 1 >= args.len() {
                let mut text = "--isotp expects firmware|host, got ".to_owned();
                push_text(&mut text, "None");
                return Err(text);
            }
            let next = &args[at + 1];
            assert(w[at + 1] == next@);
            if is_word(next, "firmware") {
                isotp = IsoTpPath::Firmware;
            } else if is_word(next, "host") {
                isotp = IsoTpPath::Host;
            } else {
                let mut got = "Some(".to_owned();
                push_text(&mut got, debug_str(next.as_str()).as_str());
                push_text(&mut got, ")");
                let mut text = "--isotp expects firmware|host, got ".to_owned();
                push_text(&mut text, got.as_str());
                return Err(text);
            }
            at = at + 2;
        } else if is_word(a, "--help") || is_word(a, "-h") {
            return Err("usage: prius-hvac [--isotp firmware|host] [PORT]".to_owned());
        } else if port.is_none() {
            port = Some(a.clone());
            at = at + 1;
        } else {
            let mut text = "unexpected argument ".to_owned();
            push_text(&mut text, debug_str(a.as_str()).as_str());
            return Err(text);
        }
    }
    let chosen = match port {
        Some(p) => p,
        None => match env {
            Some(p) => p,
            None => "/dev/ttyUSB0".to_owned(),
        },
    };
    Ok(Args { port: chosen, isotp })
}

} // verus!
