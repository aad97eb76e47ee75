//! The command line: which command the arguments name, and the lines that
//! report a sync.
use vstd::prelude::*;

use crate::model::{opt_view, plural, plural_text};
use crate::sync::SyncStats;
use crate::text::{decimal, push_decimal, push_str, text_is};

verus! {

/// What the program is asked to do.
#[derive(Debug, Clone)]
pub enum Command {
    /// Open the dashboard.
    Dashboard,
    /// Print the list, under the filter named, if one is.
    List(Option<String>),
    /// Sync now.
    Sync,
    /// Sync if the notifications changed.
    Poll,
    /// Print the conversation on the reference given, if one is.
    Show(Option<String>),
    /// Print someone's work: the login and the filter, where given.
    User(Option<String>, Option<String>),
    /// Print where the cache is.
    Where,
    /// Print the version.
    Version,
    /// Print the usage.
    Help,
    /// A command that does not exist.
    Unknown(String),
}

/// The `i`th argument, if there is one.
pub open spec fn arg_at(args: Seq<String>, i: int) -> Option<Seq<char>> {
    if 0 <= i < args.len() {
        Some(args[i]@)
    } else {
        None
    }
}

/// Whether `r` is the command that the arguments `args` (without the
/// program's name) ask for: none is the dashboard; "list", "show" and
/// "user" take the arguments after them; "-V", "--version" and "version"
/// ask for the version, "-h", "--help" and "help" for the usage; any other
/// first word is unknown.
pub open spec fn command_fits(args: Seq<String>, r: Command) -> bool {
    if args.len() == 0 {
        r is Dashboard
    } else {
        let a = args[0]@;
        if a == "list"@ {
            r matches Command::List(w) && opt_view(w) == arg_at(args, 1)
        } else if a == "sync"@ {
            r is Sync
        } else if a == "poll"@ {
            r is Poll
        } else if a == "show"@ {
            r matches Command::Show(w) && opt_view(w) == arg_at(args, 1)
        } else if a == "user"@ {
            r matches Command::User(w, x) && opt_view(w) == arg_at(args, 1) && opt_view(x) == arg_at(
                args,
                2,
            )
        } else if a == "where"@ {
            r is Where
        } else if a == "-V"@ || a == "--version"@ || a == "version"@ {
            r is Version
        } else if a == "-h"@ || a == "--help"@ || a == "help"@ {
            r is Help
        } else {
            r matches Command::Unknown(s) && s@ == a
        }
    }
}

fn arg(args: &Vec<String>, i: usize) -> (r: Option<String>)
    ensures
        opt_view(r) == arg_at(args@, i as int),
{
    if i < args.len() {
        Some(args[i].clone())
    } else {
        None
    }
}

/// The command that the arguments ask for (see `command_fits`).
pub fn parse_command(args: &Vec<String>) -> (r: Command)
    ensures
        command_fits(args@, r),
{
    if args.len() == 0 {
        return Command::Dashboard;
    }
    let a = &args[0];
    if text_is(a, "list") {
        Command::List(arg(args, 1))
    } else if text_is(a, "sync") {
        Command::Sync
    } else if text_is(a, "poll") {
        Command::Poll
    } else if text_is(a, "show") {
        Command::Show(arg(args, 1))
    } else if text_is(a, "user") {
        Command::User(arg(args, 1), arg(args, 2))
    } else if text_is(a, "where") {
        Command::Where
    } else if text_is(a, "-V") || text_is(a, "--version") || text_is(a, "version") {
        Command::Version
    } else if text_is(a, "-h") || text_is(a, "--help") || text_is(a, "help") {
        Command::Help
    } else {
        Command::Unknown(a.clone())
    }
}

/// "synced 12 items, 7 api pts, 4993 left".
pub open spec fn synced_line_text(st: SyncStats) -> Seq<char> {
    "synced "@ + plural_text(st.fetched as u64, "item"@) + ", "@ + decimal(st.cost as nat)
        + " api pts, "@ + decimal(st.remaining as nat) + " left"@
}

/// What `ghdeck sync` prints (see `synced_line_text`).
pub fn synced_line(st: &SyncStats) -> (r: String)
    ensures
        r@ == synced_line_text(*st),
{
    let mut r = crate::model::owned("synced ");
    let p = plural(st.fetched as u64, "item");
    push_str(&mut r, p.as_str());
    push_str(&mut r, ", ");
    push_decimal(&mut r, st.cost);
    push_str(&mut r, " api pts, ");
    push_decimal(&mut r, st.remaining);
    push_str(&mut r, " left");
    r
}

/// What `ghdeck poll` prints: that nothing changed, or what the sync did.
pub open spec fn poll_line_text(st: SyncStats) -> Seq<char> {
    if st.skipped {
        "nothing changed"@
    } else {
        synced_line_text(st)
    }
}

/// What `ghdeck poll` prints (see `poll_line_text`).
pub fn poll_line(st: &SyncStats) -> (r: String)
    ensures
        r@ == poll_line_text(*st),
{
    if st.skipped {
        crate::model::owned("nothing changed")
    } else {
        synced_line(st)
    }
}

/// "list", "show" and "user" take the words right after them: the filter,
/// the reference, the login and the user's filter.
pub proof fn law_commands_take_the_next_words(args: Seq<String>, r: Command)
    requires
        command_fits(args, r),
    ensures
        args.len() >= 2 && args[0]@ == "show"@ ==> (r matches Command::Show(Some(w)) && w@ == args[1]@),
        args.len() >= 2 && args[0]@ == "list"@ ==> (r matches Command::List(Some(w)) && w@ == args[1]@),
        args.len() >= 2 && args[0]@ == "user"@ ==> (r matches Command::User(Some(w), _) && w@ == args[1]@),
        args.len() >= 3 && args[0]@ == "user"@ ==> (r matches Command::User(_, Some(x)) && x@ == args[2]@),
        args.len() == 1 && args[0]@ == "show"@ ==> (r matches Command::Show(None)),
{
    reveal_strlit("list");
    reveal_strlit("sync");
    reveal_strlit("poll");
    reveal_strlit("show");
    reveal_strlit("user");
    assert("show"@[0] != "list"@[0] && "show"@[1] != "sync"@[1] && "show"@[0] != "poll"@[0]);
    assert("user"@[0] != "list"@[0] && "user"@[0] != "sync"@[0] && "user"@[0] != "poll"@[0]
        && "user"@[0] != "show"@[0]);
    assert("show"@ != "list"@ && "show"@ != "sync"@ && "show"@ != "poll"@);
    assert("user"@ != "list"@ && "user"@ != "sync"@ && "user"@ != "poll"@ && "user"@ != "show"@);
}

} // verus!
