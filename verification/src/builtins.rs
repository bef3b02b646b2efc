//! The builtin registry: a closed set of five commands (`exit`, `echo`,
//! `type`, `pwd`, `cd`), name lookup, and the pure part of each builtin's
//! behavior. Effects (printing, changing directory, terminating) are returned
//! as data; the surrounding program performs them.

use vstd::prelude::*;
use vstd::string::*;
use crate::numparse::parse_i32;
use crate::numparse::spec_parse_i32;
use crate::strutil::opt_view;
use crate::strutil::str_eq;
use crate::strutil::views_of;

verus! {

/// One of the five builtin commands.
#[derive(Clone, Copy, PartialEq, Eq, Structural, Debug)]
pub enum BuiltinCommand {
    Exit,
    Echo,
    Type,
    Pwd,
    Cd,
}

/// The closed list of builtin names, in registry order.
pub open spec fn builtin_names() -> Seq<Seq<char>> {
    seq!["exit"@, "echo"@, "type"@, "pwd"@, "cd"@]
}

/// Which builtin, if any, a command name denotes.
pub open spec fn spec_builtin_of(name: Seq<char>) -> Option<BuiltinCommand> {
    if name == "exit"@ {
        Some(BuiltinCommand::Exit)
    } else if name == "echo"@ {
        Some(BuiltinCommand::Echo)
    } else if name == "type"@ {
        Some(BuiltinCommand::Type)
    } else if name == "pwd"@ {
        Some(BuiltinCommand::Pwd)
    } else if name == "cd"@ {
        Some(BuiltinCommand::Cd)
    } else {
        None
    }
}

/// A name denotes a builtin exactly when it occurs in the registry list.
proof fn lemma_builtin_names_complete(name: Seq<char>)
    ensures
        (exists|i: int|
            0 <= i < builtin_names().len() && builtin_names()[i] == name)
            <==> spec_builtin_of(name).is_some(),
{
    if spec_builtin_of(name).is_some() {
        if name == "exit"@ {
            assert(builtin_names()[0] == name);
        } else if name == "echo"@ {
            assert(builtin_names()[1] == name);
        } else if name == "type"@ {
            assert(builtin_names()[2] == name);
        } else if name == "pwd"@ {
            assert(builtin_names()[3] == name);
        } else {
            assert(builtin_names()[4] == name);
        }
    }
    if exists|i: int| 0 <= i < builtin_names().len() && builtin_names()[i] == name {
        let i = choose|i: int|
            0 <= i < builtin_names().len() && builtin_names()[i] == name;
        assert(spec_builtin_of(name).is_some());
    }
}

/// The interpreter's registry of builtins, fixed at construction.
pub struct Shell {
    pub builtins: Vec<String>,
}

impl Shell {
    /// The registry holds exactly the builtin names, in order.
    pub open spec fn wf(&self) -> bool {
        views_of(self.builtins@) == builtin_names()
    }

    /// Builds the registry with the five builtin names.
    pub fn new() -> (s: Shell)
        ensures
            s.wf(),
    {
        let mut builtins: Vec<String> = Vec::new();
        builtins.push(String::from_str("exit"));
        builtins.push(String::from_str("echo"));
        builtins.push(String::from_str("type"));
        builtins.push(String::from_str("pwd"));
        builtins.push(String::from_str("cd"));
        proof {
            assert(views_of(builtins@) =~= builtin_names());
        }
        Shell { builtins }
    }

    /// Which builtin, if any, the given name denotes.
    pub fn lookup(&self, name: &str) -> (r: Option<BuiltinCommand>)
        ensures
            r == spec_builtin_of(name@),
    {
        if str_eq(name, "exit") {
            Some(BuiltinCommand::Exit)
        } else if str_eq(name, "echo") {
            Some(BuiltinCommand::Echo)
        } else if str_eq(name, "type") {
            Some(BuiltinCommand::Type)
        } else if str_eq(name, "pwd") {
            Some(BuiltinCommand::Pwd)
        } else if str_eq(name, "cd") {
            Some(BuiltinCommand::Cd)
        } else {
            None
        }
    }

    /// Whether the given name denotes a builtin, answered by scanning the
    /// registry list.
    pub fn is_builtin(&self, name: &str) -> (r: bool)
        requires
            self.wf(),
        ensures
            r == spec_builtin_of(name@).is_some(),
    {
        proof {
            lemma_builtin_names_complete(name@);
        }
        let n = self.builtins.len();
        let mut i: usize = 0;
        while i < n
            invariant
                self.wf(),
                n == self.builtins@.len(),
                i <= n,
                forall|j: int| 0 <= j < i ==> views_of(self.builtins@)[j] != name@,
            decreases n - i,
        {
            if str_eq(self.builtins[i].as_str(), name) {
                proof {
                    assert(views_of(self.builtins@).len() == self.builtins@.len());
                    assert(views_of(self.builtins@)[i as int] == self.builtins@[i as int]@);
                    assert(builtin_names()[i as int] == name@);
                    assert(0 <= i < builtin_names().len());
                }
                return true;
            }
            proof {
                assert(views_of(self.builtins@)[i as int] == self.builtins@[i as int]@);
            }
            i += 1;
        }
        false
    }
}

/// The words joined by single spaces: what `echo` prints.
pub open spec fn spec_join_words(ws: Seq<Seq<char>>) -> Seq<char>
    decreases ws.len(),
{
    if ws.len() == 0 {
        Seq::empty()
    } else if ws.len() == 1 {
        ws[0]
    } else {
        ws[0] + seq![' '] + spec_join_words(ws.skip(1))
    }
}

/// The glue form of the join: a leading space before every word.
spec fn spec_join_rest(ws: Seq<Seq<char>>) -> Seq<char>
    decreases ws.len(),
{
    if ws.len() == 0 {
        Seq::empty()
    } else {
        seq![' '] + ws[0] + spec_join_rest(ws.skip(1))
    }
}

/// A non-empty join is its first word followed by the glue form of the rest.
proof fn lemma_join_unfold(ws: Seq<Seq<char>>)
    requires
        ws.len() > 0,
    ensures
        spec_join_words(ws) == ws[0] + spec_join_rest(ws.skip(1)),
    decreases ws.len(),
{
    if ws.len() == 1 {
        assert(ws.skip(1).len() == 0);
        assert(ws[0] + spec_join_rest(ws.skip(1)) =~= ws[0]);
    } else {
        lemma_join_unfold(ws.skip(1));
        assert(ws.skip(1).skip(1) =~= ws.skip(2));
        assert(ws[0] + spec_join_rest(ws.skip(1)) =~= ws[0] + seq![' '] + spec_join_words(
            ws.skip(1),
        ));
    }
}

/// Joins the words with single spaces, as `echo` prints them.
pub fn join_words(ws: &Vec<String>) -> (r: String)
    ensures
        r@ == spec_join_words(views_of(ws@)),
{
    let ghost vs = views_of(ws@);
    proof {
        assert(vs.len() == ws@.len());
    }
    let n = ws.len();
    let mut r = String::new();
    if n == 0 {
        return r;
    }
    proof {
        lemma_join_unfold(vs);
        assert(vs[0] == ws@[0]@);
        assert(r@ + ws@[0]@ =~= ws@[0]@);
    }
    r.append(ws[0].as_str());
    let mut i: usize = 1;
    while i < n
        invariant
            n == ws@.len(),
            vs == views_of(ws@),
            vs.len() == n,
            1 <= i <= n,
            spec_join_words(vs) == r@ + spec_join_rest(vs.skip(i as int)),
        decreases n - i,
    {
        proof {
            reveal_strlit(" ");
            assert((" ")@ =~= seq![' ']);
            assert(vs.skip(i as int)[0] == vs[i as int]);
            assert(vs[i as int] == ws@[i as int]@);
            assert(vs.skip(i as int).skip(1) =~= vs.skip(i as int + 1));
            assert(r@ + spec_join_rest(vs.skip(i as int)) =~= r@ + (" ")@ + ws@[i as int]@
                + spec_join_rest(vs.skip(i as int + 1)));
        }
        r.append(" ");
        r.append(ws[i].as_str());
        i += 1;
    }
    proof {
        assert(spec_join_rest(vs.skip(n as int)) =~= Seq::<char>::empty());
        assert(r@ + spec_join_rest(vs.skip(n as int)) =~= r@);
    }
    r
}

/// The message printed when a command is not found on the search path.
pub fn not_found_message(name: &str) -> (r: String)
    ensures
        r@ == name@ + ": command not found"@,
{
    String::from_str(name).concat(": command not found")
}

/// The message `cd` prints when the target directory cannot be entered.
pub fn cd_fail_message(target: &str) -> (r: String)
    ensures
        r@ == "cd: "@ + target@ + ": No such file or directory"@,
{
    String::from_str("cd: ").concat(target).concat(": No such file or directory")
}

/// What the `exit` builtin decides from its arguments.
#[derive(Clone, Copy, PartialEq, Eq, Structural, Debug)]
pub enum ExitDecision {
    /// Terminate the session with this status code.
    Terminate(i32),
    /// The argument is not a valid code: report it and keep the session.
    Invalid,
}

/// The decision `exit` takes: code 0 with no argument, the parsed code when
/// the first argument is a valid `i32`, and a recoverable error otherwise.
pub open spec fn spec_exit_decision(args: Seq<Seq<char>>) -> ExitDecision {
    if args.len() == 0 {
        ExitDecision::Terminate(0)
    } else {
        match spec_parse_i32(args[0]) {
            Some(code) => ExitDecision::Terminate(code),
            None => ExitDecision::Invalid,
        }
    }
}

/// Decides what `exit` does with the given arguments.
pub fn exit_decision(args: &Vec<String>) -> (d: ExitDecision)
    ensures
        d == spec_exit_decision(views_of(args@)),
{
    proof {
        assert(views_of(args@).len() == args@.len());
    }
    if args.len() == 0 {
        ExitDecision::Terminate(0)
    } else {
        proof {
            assert(views_of(args@)[0] == args@[0]@);
        }
        match parse_i32(args[0].as_str()) {
            Some(code) => ExitDecision::Terminate(code),
            None => ExitDecision::Invalid,
        }
    }
}

/// The directory `cd` moves to: the home directory for no argument or `~`
/// (`None` when the home directory is unknown), otherwise the argument
/// verbatim.
pub open spec fn spec_cd_target(args: Seq<Seq<char>>, home: Option<Seq<char>>) -> Option<
    Seq<char>,
> {
    if args.len() == 0 || args[0] == "~"@ {
        home
    } else {
        Some(args[0])
    }
}

/// Resolves the target directory of `cd` from its arguments and the home
/// directory.
pub fn cd_target(args: &Vec<String>, home: &Option<String>) -> (r: Option<String>)
    ensures
        opt_view(r) == spec_cd_target(views_of(args@), opt_view(*home)),
{
    proof {
        assert(views_of(args@).len() == args@.len());
    }
    let use_home = if args.len() == 0 {
        true
    } else {
        proof {
            assert(views_of(args@)[0] == args@[0]@);
        }
        str_eq(args[0].as_str(), "~")
    };
    if use_home {
        match home {
            Some(h) => Some(h.clone()),
            None => None,
        }
    } else {
        Some(args[0].clone())
    }
}

/// What `type` prints for a name: whether it is a builtin, else where it was
/// resolved on the search path, else that it was not found.
pub open spec fn spec_type_message(name: Seq<char>, resolved: Option<Seq<char>>) -> Seq<char> {
    if spec_builtin_of(name).is_some() {
        name + " is a shell builtin"@
    } else {
        match resolved {
            Some(p) => name + " is "@ + p,
            None => name + ": not found"@,
        }
    }
}

/// An effect a builtin asks the surrounding program to perform.
#[derive(PartialEq, Eq, Debug)]
pub enum BuiltinEffect {
    /// Print this line on standard output.
    PrintLine(String),
    /// Print this diagnostic on standard error.
    Diagnostic(String),
    /// Terminate the session with this status code.
    Terminate(i32),
    /// Change the working directory to this path.
    ChangeDir(String),
}

/// The mathematical value of a builtin effect.
pub enum EffectView {
    PrintLine(Seq<char>),
    Diagnostic(Seq<char>),
    Terminate(i32),
    ChangeDir(Seq<char>),
}

impl View for BuiltinEffect {
    type V = EffectView;

    open spec fn view(&self) -> EffectView {
        match self {
            BuiltinEffect::PrintLine(s) => EffectView::PrintLine(s@),
            BuiltinEffect::Diagnostic(s) => EffectView::Diagnostic(s@),
            BuiltinEffect::Terminate(code) => EffectView::Terminate(*code),
            BuiltinEffect::ChangeDir(s) => EffectView::ChangeDir(s@),
        }
    }
}

/// The effect a builtin has, as a function of its arguments and of the
/// environment values handed in: the home directory for `cd`, the current
/// working directory for `pwd` (`None` when it could not be read), and the
/// search-path resolution of the first argument for `type`.
pub open spec fn spec_execute(
    b: BuiltinCommand,
    args: Seq<Seq<char>>,
    home: Option<Seq<char>>,
    cwd: Option<Seq<char>>,
    resolved: Option<Seq<char>>,
) -> EffectView {
    match b {
        BuiltinCommand::Exit => match spec_exit_decision(args) {
            ExitDecision::Terminate(code) => EffectView::Terminate(code),
            ExitDecision::Invalid => EffectView::Diagnostic("exit: invalid argument"@),
        },
        BuiltinCommand::Echo => EffectView::PrintLine(spec_join_words(args)),
        BuiltinCommand::Type => if args.len() == 0 {
            EffectView::PrintLine("type: missing argument"@)
        } else {
            EffectView::PrintLine(spec_type_message(args[0], resolved))
        },
        BuiltinCommand::Pwd => match cwd {
            Some(dir) => EffectView::PrintLine(dir),
            None => EffectView::Diagnostic("pwd: error retrieving current directory"@),
        },
        BuiltinCommand::Cd => match spec_cd_target(args, home) {
            Some(target) => EffectView::ChangeDir(target),
            None => EffectView::Diagnostic("cd: $HOME not set"@),
        },
    }
}

impl BuiltinCommand {
    /// Runs the pure part of the builtin: decides the effect from the
    /// arguments, the registry, and the environment values handed in.
    pub fn execute(
        &self,
        args: &Vec<String>,
        shell: &Shell,
        home: &Option<String>,
        cwd: &Option<String>,
        resolved: &Option<String>,
    ) -> (e: BuiltinEffect)
        requires
            shell.wf(),
        ensures
            e@ == spec_execute(
                *self,
                views_of(args@),
                opt_view(*home),
                opt_view(*cwd),
                opt_view(*resolved),
            ),
    {
        proof {
            assert(views_of(args@).len() == args@.len());
        }
        match self {
            BuiltinCommand::Exit => match exit_decision(args) {
                ExitDecision::Terminate(code) => BuiltinEffect::Terminate(code),
                ExitDecision::Invalid => BuiltinEffect::Diagnostic(
                    String::from_str("exit: invalid argument"),
                ),
            },
            BuiltinCommand::Echo => BuiltinEffect::PrintLine(join_words(args)),
            BuiltinCommand::Type => if args.len() == 0 {
                BuiltinEffect::PrintLine(String::from_str("type: missing argument"))
            } else {
                proof {
                    assert(views_of(args@)[0] == args@[0]@);
                }
                let name = args[0].as_str();
                let line = if shell.is_builtin(name) {
                    String::from_str(name).concat(" is a shell builtin")
                } else {
                    match resolved {
                        Some(p) => String::from_str(name).concat(" is ").concat(p.as_str()),
                        None => String::from_str(name).concat(": not found"),
                    }
                };
                BuiltinEffect::PrintLine(line)
            },
            BuiltinCommand::Pwd => match cwd {
                Some(dir) => BuiltinEffect::PrintLine(dir.clone()),
                None => BuiltinEffect::Diagnostic(
                    String::from_str("pwd: error retrieving current directory"),
                ),
            },
            BuiltinCommand::Cd => match cd_target(args, home) {
                Some(target) => BuiltinEffect::ChangeDir(target),
                None => BuiltinEffect::Diagnostic(String::from_str("cd: $HOME not set")),
            },
        }
    }
}

} // verus!
