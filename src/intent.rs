//! Reading one invocation's argument vector into an intent.
use vstd::prelude::*;
use vstd::string::*;
use crate::text::{trim_text, trimmed, views};

verus! {

/// The operation an invocation asks for.
#[derive(Clone, Copy, Debug, PartialEq, Eq, Structural)]
pub enum Action {
    Save,
    List,
    Show,
    Run,
    Delete,
}

/// One parsed invocation: what to do, on which record, with which command,
/// and in which database directory.
pub struct Saver {
    pub db_dir: String,
    pub name: String,
    pub cmd: String,
    pub cmd_args: Vec<String>,
    pub action: Action,
}

/// Why an argument vector does not give an intent.
#[derive(Clone, Copy, Debug, PartialEq, Eq, Structural)]
pub enum BuildError {
    /// The action is unknown or missing, or a required token is missing or
    /// empty: the usage help is due.
    Help,
    /// No home directory is known, so there is no default database directory.
    NoHome,
}

/// The option that names the database directory.
pub open spec fn db_flag() -> Seq<char> {
    seq!['-', '-', 's', 'a', 'v', 'e', 'r', '-', 'd', 'b']
}

/// The action that a token selects, if any.
pub open spec fn action_of(t: Seq<char>) -> Option<Action> {
    if t == seq!['s'] {
        Some(Action::Save)
    } else if t == seq!['l'] {
        Some(Action::List)
    } else if t == seq!['g'] {
        Some(Action::Show)
    } else if t == seq!['r'] {
        Some(Action::Run)
    } else if t == seq!['d'] {
        Some(Action::Delete)
    } else {
        None
    }
}

/// How many positional tokens follow the action: name and command for a save,
/// nothing for a listing, the name otherwise.
pub open spec fn required_count(a: Action) -> nat {
    match a {
        Action::Save => 2,
        Action::List => 0,
        _ => 1,
    }
}

/// The database directory used when none is given.
pub open spec fn default_db_dir(home: Seq<char>) -> Seq<char> {
    home + seq!['/', '.', 's', 'a', 'v', 'e', 'r', '/', 'd', 'b']
}

/// The argument vector names a known action (the first token is the program).
pub open spec fn has_action(args: Seq<Seq<char>>) -> bool {
    args.len() >= 2 && action_of(args[1]) is Some
}

/// The action of an argument vector that has one.
pub open spec fn action_in(args: Seq<Seq<char>>) -> Action {
    action_of(args[1])->0
}

/// Every positional token that the action needs is present and non-empty.
pub open spec fn positionals_present(args: Seq<Seq<char>>) -> bool {
    forall|k: int|
        0 <= k < required_count(action_in(args)) ==> 2 + k < args.len() && #[trigger] args[2
            + k].len() > 0
}

/// The tokens after the action and its positional tokens.
pub open spec fn option_tokens(args: Seq<Seq<char>>) -> Seq<Seq<char>> {
    args.skip(2 + required_count(action_in(args)) as int)
}

/// The scan of the trailing tokens, starting from directory `dir0`: the
/// directory chosen so far, whether the last token was the directory flag,
/// and the extra arguments in order.
pub open spec fn scan_options(rest: Seq<Seq<char>>, dir0: Seq<char>) -> (
    Seq<char>,
    bool,
    Seq<Seq<char>>,
)
    decreases rest.len(),
{
    if rest.len() == 0 {
        (dir0, false, Seq::empty())
    } else {
        let (d, pending, xs) = scan_options(rest.drop_last(), dir0);
        let t = rest.last();
        if trimmed(t) == db_flag() {
            (d, true, xs)
        } else if pending {
            (t, false, xs)
        } else {
            (d, false, xs.push(t))
        }
    }
}

/// A directory named after `--saver-db` at the end of the invocation is the
/// one the intent uses, whatever the home directory is.
pub proof fn lemma_db_override(args: Seq<Seq<char>>, home: Seq<char>, dir: Seq<char>)
    requires
        has_action(args),
        args.len() >= 2 + required_count(action_in(args)) + 2,
        trimmed(args[args.len() - 2]) == db_flag(),
        args.last() == dir,
        trimmed(dir) != db_flag(),
    ensures
        scan_options(option_tokens(args), default_db_dir(home)).0 == dir,
{
    let rest = option_tokens(args);
    let n = rest.len();
    assert(rest.last() == dir);
    assert(rest.drop_last().last() == args[args.len() - 2]);
    let d0 = default_db_dir(home);
    let inner = scan_options(rest.drop_last(), d0);
    assert(inner.1);
}

/// Tests two texts for equality.
fn same_text(a: &str, b: &str) -> (r: bool)
    ensures
        r == (a@ == b@),
{
    String::from_str(a) == String::from_str(b)
}

/// Reads a token as an action.
fn parse_action(t: &String) -> (r: Option<Action>)
    ensures
        r == action_of(t@),
{
    proof {
        reveal_strlit("s");
        reveal_strlit("l");
        reveal_strlit("g");
        reveal_strlit("r");
        reveal_strlit("d");
        assert("s"@ =~= seq!['s']);
        assert("l"@ =~= seq!['l']);
        assert("g"@ =~= seq!['g']);
        assert("r"@ =~= seq!['r']);
        assert("d"@ =~= seq!['d']);
    }
    let t = t.as_str();
    if same_text(t, "s") {
        Some(Action::Save)
    } else if same_text(t, "l") {
        Some(Action::List)
    } else if same_text(t, "g") {
        Some(Action::Show)
    } else if same_text(t, "r") {
        Some(Action::Run)
    } else if same_text(t, "d") {
        Some(Action::Delete)
    } else {
        None
    }
}

/// The positional token at `i`, or the empty text where the vector ends.
fn token_or_empty(args: &Vec<String>, i: usize) -> (r: String)
    ensures
        i < args@.len() ==> r@ == args@[i as int]@,
        i >= args@.len() ==> r@ == Seq::<char>::empty(),
{
    if i < args.len() {
        args[i].clone()
    } else {
        String::new()
    }
}

impl Saver {
    /// Reads an argument vector whose first token is the program, with the
    /// home directory if one is known. The action comes first; then the home
    /// directory is needed; then the positional tokens; the remaining tokens
    /// are extra arguments, except that `--saver-db` (after trimming) makes
    /// the next token the database directory.
    pub fn build(args: &Vec<String>, home: Option<String>) -> (r: Result<Saver, BuildError>)
        ensures
            (r == Err::<Saver, BuildError>(BuildError::Help)) <==> (!has_action(views(args@)) || (
            home is Some && !positionals_present(views(args@)))),
            (r == Err::<Saver, BuildError>(BuildError::NoHome)) <==> (has_action(views(args@))
                && home is None),
            r matches Ok(s) ==> {
                let a = views(args@);
                let req = required_count(action_in(a));
                let scan = scan_options(option_tokens(a), default_db_dir(home->0@));
                &&& s.action == action_in(a)
                &&& s.name@ == (if req >= 1 { a[2] } else { Seq::empty() })
                &&& s.cmd@ == (if req == 2 { a[3] } else { Seq::empty() })
                &&& s.db_dir@ == scan.0
                &&& views(s.cmd_args@) == scan.2
            },
    {
        let ghost a = views(args@);
        if args.len() < 2 {
            return Err(BuildError::Help);
        }
        let action = match parse_action(&args[1]) {
            Some(act) => act,
            None => return Err(BuildError::Help),
        };
        assert(a[1] == args@[1]@);
        let mut db_dir = match home {
            Some(h) => {
                let mut d = h;
                d.append("/.saver/db");
                proof {
                    reveal_strlit("/.saver/db");
                }
                assert(d@ =~= default_db_dir(home->0@));
                d
            },
            None => return Err(BuildError::NoHome),
        };
        let mut name = String::new();
        let mut cmd = String::new();
        let first: usize;
        match action {
            Action::Save => {
                let n = token_or_empty(args, 2);
                let c = token_or_empty(args, 3);
                if n.unicode_len() == 0 || c.unicode_len() == 0 {
                    proof {
                        if 2 < args@.len() {
                            assert(a[2] == args@[2]@);
                        }
                        if 3 < args@.len() {
                            assert(a[3] == args@[3]@);
                        }
                        if n@.len() == 0 {
                            assert(!(2 + 0int < a.len() && a[2 + 0int].len() > 0));
                        } else {
                            assert(!(2 + 1int < a.len() && a[2 + 1int].len() > 0));
                        }
                    }
                    return Err(BuildError::Help);
                }
                name = n;
                cmd = c;
                first = 4;
            },
            Action::List => {
                first = 2;
            },
            _ => {
                let n = token_or_empty(args, 2);
                if n.unicode_len() == 0 {
                    proof {
                        if 2 < args@.len() {
                            assert(a[2] == args@[2]@);
                        }
                    }
                    assert(!(2 + 0int < a.len() && a[2 + 0int].len() > 0));
                    return Err(BuildError::Help);
                }
                name = n;
                first = 3;
            },
        }
        assert(positionals_present(a)) by {
            assert forall|k: int|
                0 <= k < required_count(action_in(a)) implies 2 + k < a.len() && #[trigger] a[2
                + k].len() > 0 by {
                assert(k == 0 || k == 1);
            }
        }
        assert(first == 2 + required_count(action) && first <= args.len());
        let ghost rest = option_tokens(a);
        let ghost dir0 = db_dir@;
        let mut cmd_args: Vec<String> = Vec::new();
        let mut next_is_dir = false;
        let mut i: usize = first;
        assert(rest.subrange(0, 0) =~= Seq::<Seq<char>>::empty());
        assert(views(cmd_args@) =~= Seq::<Seq<char>>::empty());
        while i < args.len()
            invariant
                first <= i <= args.len(),
                a == views(args@),
                rest == a.skip(first as int),
                scan_options(rest.subrange(0, i - first), dir0) == (
                    db_dir@,
                    next_is_dir,
                    views(cmd_args@),
                ),
            decreases args.len() - i,
        {
            let ghost pre = rest.subrange(0, i - first);
            let ghost post = rest.subrange(0, i + 1 - first);
            assert(post.drop_last() =~= pre);
            assert(post.last() == args@[i as int]@);
            let arg = args[i].clone();
            let flag = same_text(trim_text(arg.as_str()), "--saver-db");
            proof {
                reveal_strlit("--saver-db");
                assert("--saver-db"@ =~= db_flag());
            }
            if flag {
                next_is_dir = true;
            } else if next_is_dir {
                db_dir = arg;
                next_is_dir = false;
            } else {
                let ghost before = cmd_args@;
                cmd_args.push(arg);
                assert(views(cmd_args@) =~= views(before).push(arg@));
            }
            i = i + 1;
        }
        assert(rest.subrange(0, args.len() - first) =~= rest);
        Ok(Saver { db_dir, name, cmd, cmd_args, action })
    }
}

} // verus!
