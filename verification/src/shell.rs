//! The dispatcher and the built-in commands.
//!
//! The shell decides and the caller acts: what a command needs from the
//! operating system (a change of directory, a child process, a fresh reading
//! of the environment, the end of the process) comes back as a `Request`, and
//! what the caller then observed goes into the function that finishes the
//! command.

use crate::command::Command;
use crate::number::{parse_i32, parsed_i32};
use crate::table::{distinct_names, entries_of, mapping_of, Entry};
use crate::text::{join_from, joined, same_text, texts};
use crate::variables::Variables;
use vstd::prelude::*;

verus! {

/// The commands that the shell runs itself.
#[derive(Debug, Clone, Copy, PartialEq, Eq, Structural)]
pub enum Builtin {
    /// `cd`: change the working directory.
    ChangeDir,
    /// `exit`: end the process.
    Exit,
    /// `setvar`: set a custom variable.
    SetVar,
    /// `unsetvar`: remove custom variables.
    UnsetVar,
    /// `refenvvar`: read the environment anew.
    RefreshEnv,
    /// `listvar`: list all variables.
    ListVars,
}

/// The built-in that `name` names, if it names one.
pub open spec fn builtin_named(name: Seq<char>) -> Option<Builtin> {
    if name == "cd"@ {
        Some(Builtin::ChangeDir)
    } else if name == "exit"@ {
        Some(Builtin::Exit)
    } else if name == "setvar"@ {
        Some(Builtin::SetVar)
    } else if name == "unsetvar"@ {
        Some(Builtin::UnsetVar)
    } else if name == "refenvvar"@ {
        Some(Builtin::RefreshEnv)
    } else if name == "listvar"@ {
        Some(Builtin::ListVars)
    } else {
        None
    }
}

/// Looks `name` up among the built-ins.
pub fn builtin_of(name: &str) -> (found: Option<Builtin>)
    ensures
        found == builtin_named(name@),
{
    if same_text(name, "cd") {
        Some(Builtin::ChangeDir)
    } else if same_text(name, "exit") {
        Some(Builtin::Exit)
    } else if same_text(name, "setvar") {
        Some(Builtin::SetVar)
    } else if same_text(name, "unsetvar") {
        Some(Builtin::UnsetVar)
    } else if same_text(name, "refenvvar") {
        Some(Builtin::RefreshEnv)
    } else if same_text(name, "listvar") {
        Some(Builtin::ListVars)
    } else {
        None
    }
}

/// What a built-in that has run leaves for its caller: the exit code, and
/// the lines to write to standard output and to standard error.
#[derive(Debug, PartialEq)]
pub struct Report {
    pub code: i32,
    pub output: Vec<String>,
    pub errors: Vec<String>,
}

impl Report {
    /// The lines for standard output as texts.
    pub open spec fn output_lines(&self) -> Seq<Seq<char>> {
        texts(self.output@)
    }

    /// The lines for standard error as texts.
    pub open spec fn error_lines(&self) -> Seq<Seq<char>> {
        texts(self.errors@)
    }

    /// Whether the report holds the code 0 and no line.
    pub open spec fn is_silent_success(&self) -> bool {
        self.code == 0 && self.output@.len() == 0 && self.errors@.len() == 0
    }

    /// Whether the report holds the code 1, the one error line `line` and no
    /// output.
    pub open spec fn is_failure(&self, line: Seq<char>) -> bool {
        self.code == 1 && self.output@.len() == 0 && self.error_lines() == seq![line]
    }

    /// A report with code 0 and no line.
    pub fn success() -> (r: Report)
        ensures
            r.is_silent_success(),
    {
        Report { code: 0, output: Vec::new(), errors: Vec::new() }
    }

    /// A report with code 1 and one error line.
    pub fn failure(line: String) -> (r: Report)
        ensures
            r.is_failure(line@),
    {
        let mut errors: Vec<String> = Vec::new();
        errors.push(line);
        assert(texts(errors@) =~= seq![line@]);
        Report { code: 1, output: Vec::new(), errors }
    }
}

/// One shell session: the variable store that the built-ins work on.
pub struct Shell {
    pub vars: Variables,
}

/// The complaint of `setvar` about too few arguments.
pub open spec fn setvar_usage() -> Seq<char> {
    "Not enough arguments, you have to specify {key} and {value}"@
}

/// The complaint of `unsetvar` about too few arguments.
pub open spec fn unsetvar_usage() -> Seq<char> {
    "Not enough arguments, you have to specify {key}"@
}

/// The complaint of `unsetvar` about a variable that does not exist.
pub open spec fn unset_complaint(key: Seq<char>) -> Seq<char> {
    "Cannot unset '"@ + key + "' because it doesn't exist."@
}

/// What `setvar` does with the arguments `args`: with fewer than two it
/// fails and changes nothing; else it writes the remaining arguments, joined
/// by colons, under the first.
pub open spec fn setvar_done(
    pre: Variables,
    args: Seq<Seq<char>>,
    post: Variables,
    report: Report,
) -> bool {
    &&& post.env() == pre.env()
    &&& if args.len() < 2 {
        post.custom() == pre.custom() && report.is_failure(setvar_usage())
    } else {
        post.custom() == pre.custom().insert(args[0], joined(args.skip(1), ":"@))
            && report.is_silent_success()
    }
}

/// Whether unsetting `key` fails after the keys of `earlier` were unset in
/// the mapping `m`: it is not in `m`, or it was unset before.
pub open spec fn unset_fails(
    m: Map<Seq<char>, Seq<char>>,
    earlier: Seq<Seq<char>>,
    key: Seq<char>,
) -> bool {
    !m.contains_key(key) || earlier.contains(key)
}

/// The complaints that come when `keys` are unset one after another in `m`:
/// one for each key that fails, in order.
pub open spec fn unset_complaints(m: Map<Seq<char>, Seq<char>>, keys: Seq<Seq<char>>) -> Seq<
    Seq<char>,
>
    decreases keys.len(),
{
    if keys.len() == 0 {
        Seq::empty()
    } else if unset_fails(m, keys.drop_last(), keys.last()) {
        unset_complaints(m, keys.drop_last()).push(unset_complaint(keys.last()))
    } else {
        unset_complaints(m, keys.drop_last())
    }
}

/// What `unsetvar` does with the arguments `args`: with none it fails and
/// changes nothing; else every argument leaves the custom variables, each
/// one that was not there gets a complaint, and the code is 0 only if there
/// was no complaint.
pub open spec fn unsetvar_done(
    pre: Variables,
    args: Seq<Seq<char>>,
    post: Variables,
    report: Report,
) -> bool {
    &&& post.env() == pre.env()
    &&& report.output@.len() == 0
    &&& if args.len() < 1 {
        post.custom() == pre.custom() && report.is_failure(unsetvar_usage())
    } else {
        &&& post.custom() == pre.custom().remove_keys(args.to_set())
        &&& report.error_lines() == unset_complaints(pre.custom(), args)
        &&& report.code == if report.errors@.len() == 0 {
            0i32
        } else {
            1i32
        }
    }
}

/// The line that lists one variable: a tab, the name, `=`, the value.
pub open spec fn variable_line(e: Entry) -> Seq<char> {
    "\t"@ + e.0 + "="@ + e.1
}

/// The lines that list the variables of `s`, in order.
pub open spec fn variable_lines(s: Seq<Entry>) -> Seq<Seq<char>> {
    Seq::new(s.len(), |i: int| variable_line(s[i]))
}

/// The listing of the custom variables `custom` and the environment `env`:
/// a header and the custom variables, then a header and the environment.
pub open spec fn listing(custom: Seq<Entry>, env: Seq<Entry>) -> Seq<Seq<char>> {
    seq!["CUSTOM VARIABLES:"@] + variable_lines(custom) + seq!["ENVIRONMENT'S VARIABLES:"@]
        + variable_lines(env)
}

/// Whether `s` lists the mapping `m`: each of its names once, with its value.
pub open spec fn lists(s: Seq<Entry>, m: Map<Seq<char>, Seq<char>>) -> bool {
    distinct_names(s) && mapping_of(s) == m
}

/// Why the working directory could not be changed.
#[derive(Debug, PartialEq)]
pub enum DirectoryError {
    /// The directory does not exist.
    NotFound,
    /// The user may not enter the directory.
    PermissionDenied,
    /// Any other failure, with the operating system's description of it.
    Other(String),
}

/// The program could not be started.
#[derive(Debug, Clone, Copy, PartialEq, Eq)]
pub struct LaunchError;

/// The code that stands for a child process that ended without an exit code
/// of its own, as one that a signal has killed.
pub const NO_EXIT_CODE: i32 = -1;

/// What the shell needs from the operating system to finish a command.
#[derive(Debug, PartialEq)]
pub enum Request {
    /// Change the working directory to `target`, or to the user's home
    /// directory where there is no target. What came of it goes to
    /// `Shell::directory_changed`.
    ChangeDir { target: Option<String> },
    /// End the process with `code`.
    Exit { code: i32 },
    /// Read the process environment and hand it to `Shell::refresh_env_var`.
    ReadEnvironment,
    /// Run `program` with `arguments` and wait for it. What came of it goes
    /// to `Shell::process_ended`.
    Spawn { program: String, arguments: Vec<String> },
}

/// A request as plain values.
pub enum RequestView {
    ChangeDir { target: Option<Seq<char>> },
    Exit { code: int },
    ReadEnvironment,
    Spawn { program: Seq<char>, arguments: Seq<Seq<char>> },
}

impl View for Request {
    type V = RequestView;

    open spec fn view(&self) -> RequestView {
        match self {
            Request::ChangeDir { target: Some(t) } => RequestView::ChangeDir { target: Some(t@) },
            Request::ChangeDir { target: None } => RequestView::ChangeDir { target: None },
            Request::Exit { code } => RequestView::Exit { code: *code as int },
            Request::ReadEnvironment => RequestView::ReadEnvironment,
            Request::Spawn { program, arguments } => RequestView::Spawn {
                program: program@,
                arguments: texts(arguments@),
            },
        }
    }
}

/// Where a command stands after the shell has looked at it.
#[derive(Debug, PartialEq)]
pub enum Step {
    /// The line was blank: there was nothing to run.
    Nothing,
    /// A built-in has run.
    Done(Report),
    /// The caller has to act before the command is finished.
    Pending(Request),
}

impl Step {
    /// Whether the step is the request `r`.
    pub open spec fn asks(&self, r: RequestView) -> bool {
        self matches Step::Pending(q) && q@ == r
    }
}

/// The directory that `cd` goes to with the arguments `args`: the one
/// argument, or several arguments joined by `/`; none stands for the home
/// directory.
pub open spec fn cd_target(args: Seq<Seq<char>>) -> Option<Seq<char>> {
    if args.len() == 0 {
        None
    } else if args.len() == 1 {
        Some(args[0])
    } else {
        Some(joined(args, "/"@))
    }
}

/// The complaint of `cd` about the failure `e` on the way to `target`.
pub open spec fn cd_complaint(target: Seq<char>, e: DirectoryError) -> Seq<char> {
    match e {
        DirectoryError::NotFound => "Directory '"@ + target + "' doesn't exist."@,
        DirectoryError::PermissionDenied => "You lack permissions to enter in '"@ + target + "'"@,
        DirectoryError::Other(description) => "Unhandled error of type: "@ + description@,
    }
}

/// The code that `exit` ends the process with, given the arguments `args`:
/// 0 without arguments, else the integer that the first argument writes, if
/// it writes one.
pub open spec fn exit_code(args: Seq<Seq<char>>) -> Option<int> {
    if args.len() == 0 {
        Some(0)
    } else {
        parsed_i32(args[0])
    }
}

/// The complaint of `exit` about a code that is no integer.
pub open spec fn exit_usage() -> Seq<char> {
    "Cannot parse the code in the arguments (it has to be an integer)"@
}

/// What `exit` does with the arguments `args`: it asks for the end of the
/// process, or fails where the code is no integer.
pub open spec fn exit_done(args: Seq<Seq<char>>, step: Step) -> bool {
    match exit_code(args) {
        Some(code) => step.asks(RequestView::Exit { code }),
        None => step matches Step::Done(report) && report.is_failure(exit_usage()),
    }
}

/// The outcome of a child process: its exit code, `NO_EXIT_CODE` where it
/// ended without one, and none where it could not be started.
pub open spec fn spawn_outcome(result: Result<Option<i32>, LaunchError>) -> Option<i32> {
    match result {
        Ok(Some(code)) => Some(code),
        Ok(None) => Some(NO_EXIT_CODE),
        Err(_) => None,
    }
}

/// What `listvar` reports of the variables `vars`: code 0, and the listing
/// of the custom variables and of the environment, each variable once, in
/// some order.
pub open spec fn listvar_done(vars: Variables, report: Report) -> bool {
    &&& report.code == 0
    &&& report.errors@.len() == 0
    &&& exists|custom: Seq<Entry>, env: Seq<Entry>|
        lists(custom, vars.custom()) && lists(env, vars.env()) && report.output_lines()
            == #[trigger] listing(custom, env)
}

/// Whether the variables are the same before and after.
pub open spec fn unchanged(pre: Variables, post: Variables) -> bool {
    post.env() == pre.env() && post.custom() == pre.custom()
}

/// What the built-in `b` does with the arguments `args`, from the variables
/// `pre` to the variables `post`.
pub open spec fn builtin_done(
    b: Builtin,
    pre: Variables,
    args: Seq<Seq<char>>,
    post: Variables,
    step: Step,
) -> bool {
    match b {
        Builtin::ChangeDir => unchanged(pre, post) && step.asks(
            RequestView::ChangeDir { target: cd_target(args) },
        ),
        Builtin::Exit => unchanged(pre, post) && exit_done(args, step),
        Builtin::SetVar => step matches Step::Done(report) && setvar_done(pre, args, post, report),
        Builtin::UnsetVar => step matches Step::Done(report) && unsetvar_done(
            pre,
            args,
            post,
            report,
        ),
        Builtin::RefreshEnv => unchanged(pre, post) && step.asks(RequestView::ReadEnvironment),
        Builtin::ListVars => unchanged(pre, post) && (step matches Step::Done(report)
            && listvar_done(pre, report)),
    }
}

/// What the shell does with the command `name` and its arguments `args`: a
/// blank line is nothing to run, a built-in runs, and any other name asks
/// for a child process.
pub open spec fn dispatched(
    pre: Variables,
    name: Seq<char>,
    args: Seq<Seq<char>>,
    post: Variables,
    step: Step,
) -> bool {
    if name.len() == 0 {
        unchanged(pre, post) && step is Nothing
    } else {
        match builtin_named(name) {
            Some(b) => builtin_done(b, pre, args, post, step),
            None => unchanged(pre, post) && step.asks(
                RequestView::Spawn { program: name, arguments: args },
            ),
        }
    }
}

/// Writes the lines that list `pairs` at the end of `lines`.
fn push_variable_lines(lines: &mut Vec<String>, pairs: &Vec<(String, String)>)
    ensures
        texts(final(lines)@) == texts(old(lines)@) + variable_lines(entries_of(pairs@)),
{
    let mut i: usize = 0;
    assert(texts(lines@) =~= texts(old(lines)@) + variable_lines(entries_of(pairs@).take(0)));
    while i < pairs.len()
        invariant
            i <= pairs.len(),
            texts(lines@) == texts(old(lines)@) + variable_lines(
                entries_of(pairs@).take(i as int),
            ),
        decreases pairs.len() - i,
    {
        let mut line = "\t".to_owned();
        line.append(pairs[i].0.as_str());
        line.append("=");
        line.append(pairs[i].1.as_str());
        proof {
            let e = entries_of(pairs@)[i as int];
            assert(line@ == variable_line(e));
            assert(texts(lines@.push(line)) =~= texts(lines@).push(line@));
            assert(variable_lines(entries_of(pairs@).take(i + 1)) =~= variable_lines(
                entries_of(pairs@).take(i as int),
            ).push(variable_line(e)));
        }
        lines.push(line);
        i += 1;
    }
    proof {
        assert(entries_of(pairs@).take(pairs@.len() as int) == entries_of(pairs@));
    }
}

impl Shell {
    /// A session over the given environment, with no custom variable.
    pub fn new(environment: &Vec<(String, String)>) -> (shell: Shell)
        ensures
            shell.vars.env() == mapping_of(entries_of(environment@)),
            shell.vars.custom() == Map::<Seq<char>, Seq<char>>::empty(),
    {
        Shell { vars: Variables::new(environment) }
    }

    /// The built-in `setvar`.
    pub fn set_custom_var(&mut self, ctx: &Command) -> (report: Report)
        ensures
            setvar_done(old(self).vars, ctx.args(), final(self).vars, report),
    {
        if ctx.arguments.len() < 2 {
            return Report::failure(
                "Not enough arguments, you have to specify {key} and {value}".to_owned(),
            );
        }
        let key = ctx.arguments[0].clone();
        let value = join_from(&ctx.arguments, 1, ":");
        self.vars.set_var(key, value);
        Report::success()
    }

    /// The built-in `unsetvar`.
    pub fn unset_custom_var(&mut self, ctx: &Command) -> (report: Report)
        ensures
            unsetvar_done(old(self).vars, ctx.args(), final(self).vars, report),
    {
        if ctx.arguments.len() < 1 {
            return Report::failure("Not enough arguments, you have to specify {key}".to_owned());
        }
        let ghost pre = self.vars.custom();
        let ghost args = ctx.args();
        let mut errors: Vec<String> = Vec::new();
        let mut i: usize = 0;
        proof {
            assert(args.take(0).to_set() =~= Set::<Seq<char>>::empty());
            assert(pre.remove_keys(Set::<Seq<char>>::empty()) =~= pre);
            assert(texts(errors@) =~= Seq::<Seq<char>>::empty());
        }
        while i < ctx.arguments.len()
            invariant
                i <= ctx.arguments.len(),
                args == ctx.args(),
                self.vars.env() == old(self).vars.env(),
                self.vars.custom() == pre.remove_keys(args.take(i as int).to_set()),
                texts(errors@) == unset_complaints(pre, args.take(i as int)),
            decreases ctx.arguments.len() - i,
        {
            let key = &ctx.arguments[i];
            let ghost seen = args.take(i as int);
            let ghost next = args.take(i + 1);
            proof {
                assert(next.drop_last() == seen);
                assert(next.last() == key@);
                assert(next.to_set() =~= seen.to_set().insert(key@)) by {
                    assert forall|k: Seq<char>| next.contains(k) <==> (seen.contains(k) || k
                        == key@) by {
                        if next.contains(k) {
                            let j = choose|j: int| 0 <= j < next.len() && next[j] == k;
                            if j < seen.len() {
                                assert(seen[j] == k);
                            }
                        }
                        if seen.contains(k) {
                            let j = choose|j: int| 0 <= j < seen.len() && seen[j] == k;
                            assert(next[j] == k);
                        }
                        assert(next[i as int] == key@);
                    }
                }
                assert(pre.remove_keys(next.to_set()) =~= pre.remove_keys(seen.to_set()).remove(
                    key@,
                ));
            }
            match self.vars.unset_var(key) {
                Ok(_) => {},
                Err(_) => {
                    let mut line = "Cannot unset '".to_owned();
                    line.append(key.as_str());
                    line.append("' because it doesn't exist.");
                    proof {
                        assert(texts(errors@.push(line)) =~= texts(errors@).push(line@));
                    }
                    errors.push(line);
                },
            }
            i += 1;
        }
        proof {
            assert(args.take(args.len() as int) == args);
        }
        let code: i32 = if errors.len() == 0 {
            0
        } else {
            1
        };
        Report { code, output: Vec::new(), errors }
    }

    /// The built-in `listvar`: the report lists the custom variables and then
    /// the environment, each variable once, and the code is 0.
    pub fn list_vars(&self, _ctx: &Command) -> (report: Report)
        ensures
            listvar_done(self.vars, report),
    {
        let (custom, env) = self.vars.list_all();
        let mut output: Vec<String> = Vec::new();
        output.push("CUSTOM VARIABLES:".to_owned());
        assert(texts(output@) =~= seq!["CUSTOM VARIABLES:"@]);
        push_variable_lines(&mut output, &custom);
        let ghost upper = texts(output@);
        output.push("ENVIRONMENT'S VARIABLES:".to_owned());
        assert(texts(output@) =~= upper + seq!["ENVIRONMENT'S VARIABLES:"@]);
        push_variable_lines(&mut output, &env);
        assert(texts(output@) == listing(entries_of(custom@), entries_of(env@)));
        Report { code: 0, output, errors: Vec::new() }
    }

    /// The built-in `exit`.
    pub fn exit(&self, ctx: &Command) -> (step: Step)
        ensures
            exit_done(ctx.args(), step),
    {
        if ctx.arguments.len() == 0 {
            return Step::Pending(Request::Exit { code: 0 });
        }
        match parse_i32(ctx.arguments[0].as_str()) {
            Some(code) => Step::Pending(Request::Exit { code }),
            None => Step::Done(
                Report::failure(
                    "Cannot parse the code in the arguments (it has to be an integer)".to_owned(),
                ),
            ),
        }
    }

    /// The built-in `cd`: it asks for the change of directory.
    pub fn change_dir(&self, ctx: &Command) -> (step: Step)
        ensures
            step.asks(RequestView::ChangeDir { target: cd_target(ctx.args()) }),
    {
        let target = if ctx.arguments.len() == 1 {
            Some(ctx.arguments[0].clone())
        } else if ctx.arguments.len() > 1 {
            proof {
                assert(texts(ctx.arguments@).skip(0) == texts(ctx.arguments@));
            }
            Some(join_from(&ctx.arguments, 0, "/"))
        } else {
            None
        };
        Step::Pending(Request::ChangeDir { target })
    }

    /// Finishes `cd` once the caller has tried to enter `target`: code 0
    /// where it got there, else code 1 and a complaint that names the cause.
    pub fn directory_changed(target: &String, result: Result<(), DirectoryError>) -> (report:
        Report)
        ensures
            match result {
                Ok(_) => report.is_silent_success(),
                Err(e) => report.is_failure(cd_complaint(target@, e)),
            },
    {
        match result {
            Ok(_) => Report::success(),
            Err(DirectoryError::NotFound) => {
                let mut line = "Directory '".to_owned();
                line.append(target.as_str());
                line.append("' doesn't exist.");
                Report::failure(line)
            },
            Err(DirectoryError::PermissionDenied) => {
                let mut line = "You lack permissions to enter in '".to_owned();
                line.append(target.as_str());
                line.append("'");
                Report::failure(line)
            },
            Err(DirectoryError::Other(description)) => {
                let mut line = "Unhandled error of type: ".to_owned();
                line.append(description.as_str());
                Report::failure(line)
            },
        }
    }

    /// Finishes `refenvvar` with the environment that the caller has read:
    /// it replaces the snapshot, leaves the custom variables, and gives
    /// code 0.
    pub fn refresh_env_var(&mut self, environment: &Vec<(String, String)>) -> (code: i32)
        ensures
            code == 0,
            final(self).vars.env() == mapping_of(entries_of(environment@)),
            final(self).vars.custom() == old(self).vars.custom(),
    {
        self.vars.refresh_env_vars(environment);
        0
    }

    /// Finishes an external command once the caller has run it.
    pub fn process_ended(result: Result<Option<i32>, LaunchError>) -> (outcome: Option<i32>)
        ensures
            outcome == spawn_outcome(result),
    {
        match result {
            Ok(Some(code)) => Some(code),
            Ok(None) => Some(NO_EXIT_CODE),
            Err(_) => None,
        }
    }

    /// Runs `user_input` if it names a built-in, and says nothing of it
    /// otherwise.
    pub fn execute_as_builtin(&mut self, user_input: &Command) -> (ran: Option<Step>)
        ensures
            match builtin_named(user_input.name()) {
                Some(b) => ran matches Some(step) && builtin_done(
                    b,
                    old(self).vars,
                    user_input.args(),
                    final(self).vars,
                    step,
                ),
                None => ran is None && unchanged(old(self).vars, final(self).vars),
            },
    {
        match builtin_of(user_input.command.as_str()) {
            Some(Builtin::ChangeDir) => Some(self.change_dir(user_input)),
            Some(Builtin::Exit) => Some(self.exit(user_input)),
            Some(Builtin::SetVar) => Some(Step::Done(self.set_custom_var(user_input))),
            Some(Builtin::UnsetVar) => Some(Step::Done(self.unset_custom_var(user_input))),
            Some(Builtin::RefreshEnv) => Some(Step::Pending(Request::ReadEnvironment)),
            Some(Builtin::ListVars) => Some(Step::Done(self.list_vars(user_input))),
            None => None,
        }
    }

    /// Decides what `user_input` does, and does it as far as the shell can
    /// by itself.
    pub fn execute_user_input(&mut self, user_input: Command) -> (step: Step)
        ensures
            dispatched(
                old(self).vars,
                user_input.name(),
                user_input.args(),
                final(self).vars,
                step,
            ),
    {
        if user_input.command.as_str().is_empty() {
            return Step::Nothing;
        }
        match self.execute_as_builtin(&user_input) {
            Some(step) => step,
            None => Step::Pending(
                Request::Spawn { program: user_input.command, arguments: user_input.arguments },
            ),
        }
    }

    /// The prompt that is used where no other is set: the working directory
    /// `dir`, a closing bracket and a space.
    pub fn default_prompt_handler(dir: &str) -> (prompt: String)
        ensures
            prompt@ == dir@ + ") "@,
    {
        let mut prompt = dir.to_owned();
        prompt.append(") ");
        prompt
    }
}

} // verus!
