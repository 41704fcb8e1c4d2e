use vstd::prelude::*;
use vstd::string::StrSliceExecFns;
use vstd::string::StringExecFns;
use crate::platform::Platform;
use crate::matching::str_eq;
use crate::scan::SearchResult;
use crate::text::drop_placeholders;
use crate::text::filter_placeholder_tokens;
use crate::text::split_whitespace_tokens;
use crate::text::split_ws;

verus! {

/// One process invocation the dispatcher may attempt: a program and its
/// arguments.
#[derive(Debug, Clone)]
pub struct CommandSpec {
    pub program: String,
    pub args: Vec<String>,
}

pub open spec fn cmd_view(c: CommandSpec) -> (Seq<char>, Seq<Seq<char>>) {
    (c.program@, c.args.deep_view())
}

/// Dispatch failure: the recorded launch command had no tokens left
/// once placeholders were dropped.
#[derive(Debug, Clone, Copy, PartialEq, Eq, Structural)]
pub enum DispatchError {
    EmptyExecLine,
}

/// The tokens a recorded launch command dispatches with: its
/// whitespace-separated tokens minus the placeholder tokens.
pub open spec fn exec_tokens(s: Seq<char>) -> Seq<Seq<char>> {
    drop_placeholders(split_ws(s))
}

/// Splits a recorded launch command into the program to spawn and its
/// arguments, discarding placeholder tokens; `None` exactly when no
/// token survives.
pub fn split_exec_command(exec_line: &str) -> (r: Option<CommandSpec>)
    ensures
        match r {
            Option::None => exec_tokens(exec_line@).len() == 0,
            Option::Some(c) => {
                &&& exec_tokens(exec_line@).len() > 0
                &&& c.program@ == exec_tokens(exec_line@)[0]
                &&& c.args.deep_view() == exec_tokens(exec_line@).drop_first()
            },
        },
{
    let toks = split_whitespace_tokens(exec_line);
    let kept = filter_placeholder_tokens(&toks);
    if kept.len() == 0 {
        proof {
            assert(exec_tokens(exec_line@).len() == 0);
        }
        return None;
    }
    let mut rest = kept;
    let program = rest.remove(0);
    proof {
        assert(rest.deep_view() =~= exec_tokens(exec_line@).drop_first());
    }
    Some(CommandSpec { program, args: rest })
}

/// `suf` is a suffix of `s`.
pub open spec fn is_suffix(suf: Seq<char>, s: Seq<char>) -> bool {
    suf.len() <= s.len() && s.subrange(s.len() - suf.len(), s.len() as int) == suf
}

/// Suffix test, stated over the views.
pub fn ends_with_str(s: &str, suf: &str) -> (r: bool)
    ensures
        r == is_suffix(suf@, s@),
{
    let slen = s.unicode_len();
    let suflen = suf.unicode_len();
    if suflen > slen {
        return false;
    }
    let tail = s.substring_char(slen - suflen, slen);
    str_eq(tail, suf)
}

/// The ordered launch strategies for a plain-path candidate, tried
/// first to last until one succeeds: a platform-native opener for
/// bundle-style paths, a generic default-handler opener, direct
/// execution, and a shell interpreter as the last resort, as the
/// platform provides them.
pub open spec fn launch_plan_of(p: Platform, path: Seq<char>) -> Seq<(Seq<char>, Seq<Seq<char>>)> {
    match p {
        Platform::Linux => seq![
            ("xdg-open"@, seq![path]),
            (path, Seq::<Seq<char>>::empty()),
            ("sh"@, seq![path]),
        ],
        Platform::MacOs => if is_suffix(".app"@, path) {
            seq![("open"@, seq![path]), (path, Seq::<Seq<char>>::empty())]
        } else {
            seq![(path, Seq::<Seq<char>>::empty())]
        },
        Platform::Windows => seq![
            ("cmd"@, seq!["/C"@, "start"@, ""@, path]),
            (path, Seq::<Seq<char>>::empty()),
        ],
        Platform::Other => seq![(path, Seq::<Seq<char>>::empty())],
    }
}

/// Builds the ordered fallback commands for launching a plain path.
pub fn plain_launch_plan(p: Platform, path: &str) -> (r: Vec<CommandSpec>)
    ensures
        r@.len() == launch_plan_of(p, path@).len(),
        forall|i: int| 0 <= i < r@.len() ==> cmd_view(r@[i]) == launch_plan_of(p, path@)[i],
{
    let mut r: Vec<CommandSpec> = Vec::new();
    match p {
        Platform::Linux => {
            let mut a0: Vec<String> = Vec::new();
            a0.push(path.to_owned());
            r.push(CommandSpec { program: "xdg-open".to_owned(), args: a0 });
            r.push(CommandSpec { program: path.to_owned(), args: Vec::new() });
            let mut a2: Vec<String> = Vec::new();
            a2.push(path.to_owned());
            r.push(CommandSpec { program: "sh".to_owned(), args: a2 });
            proof {
                assert(cmd_view(r@[0]).1 =~= seq![path@]);
                assert(cmd_view(r@[1]).1 =~= Seq::<Seq<char>>::empty());
                assert(cmd_view(r@[2]).1 =~= seq![path@]);
            }
        },
        Platform::MacOs => {
            if ends_with_str(path, ".app") {
                let mut a0: Vec<String> = Vec::new();
                a0.push(path.to_owned());
                r.push(CommandSpec { program: "open".to_owned(), args: a0 });
                r.push(CommandSpec { program: path.to_owned(), args: Vec::new() });
                proof {
                    assert(cmd_view(r@[0]).1 =~= seq![path@]);
                    assert(cmd_view(r@[1]).1 =~= Seq::<Seq<char>>::empty());
                }
            } else {
                r.push(CommandSpec { program: path.to_owned(), args: Vec::new() });
                proof {
                    assert(cmd_view(r@[0]).1 =~= Seq::<Seq<char>>::empty());
                }
            }
        },
        Platform::Windows => {
            let mut a0: Vec<String> = Vec::new();
            a0.push("/C".to_owned());
            a0.push("start".to_owned());
            a0.push("".to_owned());
            a0.push(path.to_owned());
            r.push(CommandSpec { program: "cmd".to_owned(), args: a0 });
            r.push(CommandSpec { program: path.to_owned(), args: Vec::new() });
            proof {
                assert(cmd_view(r@[0]).1 =~= seq!["/C"@, "start"@, ""@, path@]);
                assert(cmd_view(r@[1]).1 =~= Seq::<Seq<char>>::empty());
            }
        },
        Platform::Other => {
            r.push(CommandSpec { program: path.to_owned(), args: Vec::new() });
            proof {
                assert(cmd_view(r@[0]).1 =~= Seq::<Seq<char>>::empty());
            }
        },
    }
    r
}

/// How a dispatch plan must relate to the chosen candidate: a
/// structured-entry candidate dispatches through its recorded command
/// split into tokens (an error when none survive), a plain-path
/// candidate through the platform's ordered fallback strategies.
pub open spec fn plan_ok(
    p: Platform,
    sr: SearchResult,
    r: Result<Vec<CommandSpec>, DispatchError>,
) -> bool {
    if p == Platform::Linux && sr.is_desktop && sr.exec_cmd is Some {
        let toks = exec_tokens(sr.exec_cmd->Some_0@);
        match r {
            Result::Ok(cmds) => {
                &&& toks.len() > 0
                &&& cmds@.len() == 1
                &&& cmd_view(cmds@[0]) == (toks[0], toks.drop_first())
            },
            Result::Err(e) => toks.len() == 0 && e == DispatchError::EmptyExecLine,
        }
    } else {
        match r {
            Result::Ok(cmds) => {
                &&& cmds@.len() == launch_plan_of(p, sr.path@).len()
                &&& forall|i: int|
                    0 <= i < cmds@.len() ==> cmd_view(cmds@[i]) == launch_plan_of(p, sr.path@)[i]
            },
            Result::Err(e) => false,
        }
    }
}

/// Turns the chosen candidate into the ordered list of process
/// invocations the dispatcher should attempt.
pub fn dispatch_plan(p: Platform, res: &SearchResult) -> (r: Result<Vec<CommandSpec>, DispatchError>)
    ensures
        plan_ok(p, *res, r),
{
    let use_entry: bool = match (p, &res.exec_cmd) {
        (Platform::Linux, Option::Some(_)) => res.is_desktop,
        _ => false,
    };
    if use_entry {
        let line: &String = match &res.exec_cmd {
            Option::Some(l) => l,
            Option::None => unreached(),
        };
        match split_exec_command(line.as_str()) {
            Option::Some(c) => {
                let mut cmds: Vec<CommandSpec> = Vec::new();
                cmds.push(c);
                Ok(cmds)
            },
            Option::None => Err(DispatchError::EmptyExecLine),
        }
    } else {
        Ok(plain_launch_plan(p, res.path.as_str()))
    }
}

/// The terminal not-found report, naming the original query.
pub fn not_found_message(app_name: &str) -> (r: String)
    ensures
        r@ == "Could not find or launch application: "@ + app_name@,
{
    let prefix: String = "Could not find or launch application: ".to_owned();
    prefix.concat(app_name)
}

} // verus!
