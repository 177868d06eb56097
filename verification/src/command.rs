//! Commands, and the run steps made of them.

use vstd::prelude::*;
use crate::replay::{Invocation, InvocationView, Replay, ReplayView};
use crate::text::{copy_strings, each_after, join, opt_text, to_strings};
use crate::views::{lemma_views_push, views};

verus! {

/// What a [`Cmd`] holds: a program and its arguments.
pub struct CmdView {
    pub program: Seq<char>,
    pub args: Seq<Seq<char>>,
}

impl CmdView {
    /// The command whose program is the first of `words` and whose arguments
    /// are the others.
    pub open spec fn of_words(words: Seq<Seq<char>>) -> CmdView {
        CmdView { program: words.first(), args: words.skip(1) }
    }

    /// The command on one line: the program and the arguments with one space
    /// between neighbours. Nothing is quoted or escaped.
    pub open spec fn render(self) -> Seq<char> {
        join(seq![self.program] + self.args, " "@)
    }

    /// The process that runs this command as it is written, in `dir` if one
    /// is given.
    pub open spec fn direct(self, dir: Option<Seq<char>>) -> InvocationView {
        InvocationView { program: self.program, args: self.args, dir }
    }

    /// The process that runs this command: the command as it is written, or,
    /// on a nightly toolchain, that command handed to `rustup`.
    pub open spec fn invocation(self, dir: Option<Seq<char>>, is_nightly: bool) -> InvocationView {
        if is_nightly {
            through_rustup(self.direct(dir))
        } else {
            self.direct(dir)
        }
    }
}

/// The process that runs `direct` on the nightly toolchain: `rustup run
/// nightly`, followed by the program and the arguments of `direct`, in the
/// same directory.
pub open spec fn through_rustup(direct: InvocationView) -> InvocationView {
    InvocationView {
        program: "rustup"@,
        args: seq!["run"@, "nightly"@, direct.program] + direct.args,
        dir: direct.dir,
    }
}

/// Each process of `plan` run on the nightly toolchain, in order.
pub open spec fn all_through_rustup(plan: Seq<InvocationView>) -> Seq<InvocationView> {
    Seq::new(plan.len(), |i: int| through_rustup(plan[i]))
}

/// A program with its arguments.
pub struct Cmd {
    program: String,
    args: Vec<String>,
}

impl View for Cmd {
    type V = CmdView;

    closed spec fn view(&self) -> CmdView {
        CmdView { program: self.program@, args: views(self.args@) }
    }
}

impl Cmd {
    /// The command that runs `program` with `args`.
    pub fn new(program: &str, args: &[&str]) -> (cmd: Cmd)
        ensures
            cmd@ == (CmdView { program: program@, args: views(args@) }),
    {
        Cmd { program: String::from_str(program), args: to_strings(args) }
    }

    /// The command written as `words`: the program, then its arguments.
    pub fn from(words: &[&str]) -> (cmd: Cmd)
        requires
            words.len() > 0,
        ensures
            cmd@ == CmdView::of_words(views(words@)),
    {
        let mut args: Vec<String> = Vec::new();
        let mut i: usize = 1;
        while i < words.len()
            invariant
                1 <= i <= words.len(),
                views(args@) == views(words@).subrange(1, i as int),
            decreases words.len() - i,
        {
            let word = String::from_str(words[i]);
            proof {
                lemma_views_push(args@, word);
            }
            args.push(word);
            i += 1;
            assert(views(args@) =~= views(words@).subrange(1, i as int));
        }
        Cmd { program: String::from_str(words[0]), args }
    }

    /// Appends the command to `out`, on one line.
    pub fn fmt(&self, out: &mut String)
        ensures
            final(out)@ == old(out)@ + self@.render(),
    {
        out.append(self.program.as_str());
        let ghost args = views(self.args@);
        let mut i: usize = 0;
        while i < self.args.len()
            invariant
                i <= self.args.len(),
                args == views(self.args@),
                out@ == old(out)@ + self.program@ + each_after(" "@, args.take(i as int)),
            decreases self.args.len() - i,
        {
            out.append(" ");
            out.append(self.args[i].as_str());
            proof {
                assert(args.take(i + 1).drop_last() =~= args.take(i as int));
            }
            i += 1;
        }
        proof {
            assert(args.take(self.args.len() as int) =~= args);
            assert((seq![self.program@] + args).skip(1) =~= args);
        }
    }

    /// The command on one line.
    pub fn to_string(&self) -> (line: String)
        ensures
            line@ == self@.render(),
    {
        let mut line = String::new();
        self.fmt(&mut line);
        line
    }

    /// The process to start for this command, in `dir` if one is given. On a
    /// nightly toolchain the command is handed to `rustup run nightly`.
    pub fn run_in_dir(&self, dir: Option<&String>, is_nightly: bool) -> (invocation: Invocation)
        ensures
            invocation@ == self@.invocation(
                match dir {
                    Some(d) => Some(d@),
                    None => None,
                },
                is_nightly,
            ),
    {
        let dir = match dir {
            Some(d) => Some(d.clone()),
            None => None,
        };
        if is_nightly {
            let mut args: Vec<String> = Vec::new();
            args.push(String::from_str("run"));
            args.push(String::from_str("nightly"));
            args.push(self.program.clone());
            let ghost head = views(args@);
            let mut i: usize = 0;
            while i < self.args.len()
                invariant
                    i <= self.args.len(),
                    views(args@) == head + views(self.args@).take(i as int),
                decreases self.args.len() - i,
            {
                let arg = self.args[i].clone();
                proof {
                    lemma_views_push(args@, arg);
                }
                args.push(arg);
                i += 1;
                assert(views(args@) =~= head + views(self.args@).take(i as int));
            }
            proof {
                assert(views(self.args@).take(self.args.len() as int) =~= views(self.args@));
                assert(head =~= seq!["run"@, "nightly"@, self.program@]);
            }
            Invocation { program: String::from_str("rustup"), args, dir }
        } else {
            Invocation { program: self.program.clone(), args: copy_strings(&self.args), dir }
        }
    }
}

/// What a run step executes: one command, or several in order.
pub enum ScriptView {
    Single(CmdView),
    Multi(Seq<CmdView>),
}

/// What a [`Run`] holds.
pub struct RunView {
    pub script: ScriptView,
    pub directory: Option<Seq<char>>,
}

/// The lines of a script block, one command on each.
pub open spec fn script_lines(commands: Seq<CmdView>) -> Seq<char>
    decreases commands.len(),
{
    if commands.len() == 0 {
        Seq::empty()
    } else {
        script_lines(commands.drop_last()) + "        "@ + commands.last().render() + "\n"@
    }
}

impl RunView {
    /// The run step of the single command `program args..`.
    pub open spec fn single(program: Seq<char>, args: Seq<Seq<char>>) -> RunView {
        RunView { script: ScriptView::Single(CmdView { program, args }), directory: None }
    }

    /// The commands of the step, in the order in which they run.
    pub open spec fn commands(self) -> Seq<CmdView> {
        match self.script {
            ScriptView::Single(cmd) => seq![cmd],
            ScriptView::Multi(commands) => commands,
        }
    }

    /// How the step begins in a workflow document: the list marker and, if a
    /// directory is set, the line that names it.
    pub open spec fn render_head(self) -> Seq<char> {
        match self.directory {
            Some(directory) => "    - "@ + "working-directory: "@ + directory + "\n"@ + "      "@,
            None => "    - "@,
        }
    }

    /// The step in a workflow document: one `run:` line for a single command,
    /// a block with one line per command for several.
    pub open spec fn render(self) -> Seq<char> {
        match self.script {
            ScriptView::Single(cmd) => self.render_head() + "run: "@ + cmd.render() + "\n"@,
            ScriptView::Multi(commands) => self.render_head() + "run: |\n"@ + script_lines(
                commands,
            ),
        }
    }

    /// The processes that a local run of the step starts, in order: one for
    /// each command, each in the step's directory.
    pub open spec fn plan(self, is_nightly: bool) -> Seq<InvocationView> {
        Seq::new(
            self.commands().len(),
            |i: int| self.commands()[i].invocation(self.directory, is_nightly),
        )
    }
}

/// One or more commands bundled as a step, with an optional directory to run
/// them in.
pub struct Run {
    script: RunEnum,
    directory: Option<String>,
}

enum RunEnum {
    Single(Cmd),
    Multi(Vec<Cmd>),
}

impl View for Run {
    type V = RunView;

    closed spec fn view(&self) -> RunView {
        RunView {
            script: match self.script {
                RunEnum::Single(cmd) => ScriptView::Single(cmd@),
                RunEnum::Multi(commands) => ScriptView::Multi(views(commands@)),
            },
            directory: opt_text(self.directory),
        }
    }
}

/// The run step of the single command `program args..`.
pub fn cmd(program: &str, args: &[&str]) -> (run: Run)
    ensures
        run@ == RunView::single(program@, views(args@)),
{
    Run { script: RunEnum::Single(Cmd::new(program, args)), directory: None }
}

/// The commands that the lines of a script spell, each line a program
/// followed by its arguments.
pub open spec fn script_commands(lines: Seq<&[&str]>) -> Seq<CmdView> {
    Seq::new(lines.len(), |i: int| CmdView::of_words(views(lines[i]@)))
}

/// The run step of several commands, each given as a line of words: the
/// program, then its arguments. A line must name its program.
pub fn script(lines: &[&[&str]]) -> (run: Run)
    requires
        forall|i: int| 0 <= i < lines.len() ==> (#[trigger] lines[i]).len() > 0,
    ensures
        run@ == (RunView { script: ScriptView::Multi(script_commands(lines@)), directory: None }),
{
    let mut commands: Vec<Cmd> = Vec::new();
    let mut i: usize = 0;
    while i < lines.len()
        invariant
            i <= lines.len(),
            forall|j: int| 0 <= j < lines.len() ==> (#[trigger] lines[j]).len() > 0,
            views(commands@) == script_commands(lines@).take(i as int),
        decreases lines.len() - i,
    {
        let command = Cmd::from(lines[i]);
        proof {
            lemma_views_push(commands@, command);
        }
        commands.push(command);
        i += 1;
        assert(views(commands@) =~= script_commands(lines@).take(i as int));
    }
    assert(script_commands(lines@).take(lines.len() as int) =~= script_commands(lines@));
    Run { script: RunEnum::Multi(commands), directory: None }
}

impl Run {
    /// The same step, run in `directory`.
    pub fn in_directory(self, directory: &str) -> (run: Run)
        ensures
            run@ == (RunView { script: self@.script, directory: Some(directory@) }),
    {
        Run { script: self.script, directory: Some(String::from_str(directory)) }
    }

    /// Appends to `plan` the processes that a local run of the step starts.
    pub fn invocations(&self, is_nightly: bool, plan: &mut Vec<Invocation>)
        ensures
            views(final(plan)@) == views(old(plan)@) + self@.plan(is_nightly),
    {
        let ghost before = views(plan@);
        let ghost added = self@.plan(is_nightly);
        match &self.script {
            RunEnum::Single(single) => {
                let invocation = single.run_in_dir(self.directory.as_ref(), is_nightly);
                proof {
                    lemma_views_push(plan@, invocation);
                }
                plan.push(invocation);
                assert(views(plan@) =~= before + added);
            },
            RunEnum::Multi(multi) => {
                let mut i: usize = 0;
                while i < multi.len()
                    invariant
                        i <= multi.len(),
                        self.script == RunEnum::Multi(*multi),
                        added == self@.plan(is_nightly),
                        views(plan@) == before + added.take(i as int),
                    decreases multi.len() - i,
                {
                    let invocation = multi[i].run_in_dir(self.directory.as_ref(), is_nightly);
                    proof {
                        lemma_views_push(plan@, invocation);
                    }
                    plan.push(invocation);
                    i += 1;
                    assert(views(plan@) =~= before + added.take(i as int));
                }
                assert(added.take(multi.len() as int) =~= added);
            },
        }
    }

    /// Starts a local run of the step: its commands one after the other, up
    /// to the first that fails.
    pub fn run(&self, is_nightly: bool) -> (replay: Replay)
        ensures
            replay@ == ReplayView::start(self@.plan(is_nightly)),
    {
        let mut plan: Vec<Invocation> = Vec::new();
        self.invocations(is_nightly, &mut plan);
        assert(views(plan@) =~= self@.plan(is_nightly));
        Replay::new(plan)
    }

    /// Appends the step to `out`, as it stands in a workflow document.
    pub fn fmt(&self, out: &mut String)
        ensures
            final(out)@ == old(out)@ + self@.render(),
    {
        out.append("    - ");
        match &self.directory {
            Some(directory) => {
                out.append("working-directory: ");
                out.append(directory.as_str());
                out.append("\n");
                out.append("      ");
            },
            None => {},
        }
        assert(out@ =~= old(out)@ + self@.render_head());
        match &self.script {
            RunEnum::Single(cmd) => {
                out.append("run: ");
                cmd.fmt(out);
                out.append("\n");
                assert(out@ =~= old(out)@ + self@.render());
            },
            RunEnum::Multi(multi) => {
                out.append("run: |\n");
                let ghost start = out@;
                let ghost commands = views(multi@);
                let mut i: usize = 0;
                while i < multi.len()
                    invariant
                        i <= multi.len(),
                        commands == views(multi@),
                        out@ == start + script_lines(commands.take(i as int)),
                    decreases multi.len() - i,
                {
                    out.append("        ");
                    multi[i].fmt(out);
                    out.append("\n");
                    proof {
                        assert(commands.take(i + 1).drop_last() =~= commands.take(i as int));
                        assert(out@ =~= start + script_lines(commands.take(i + 1)));
                    }
                    i += 1;
                }
                proof {
                    assert(commands.take(multi.len() as int) =~= commands);
                    assert(out@ =~= old(out)@ + self@.render());
                }
            },
        }
    }

    /// The step as it stands in a workflow document.
    pub fn to_string(&self) -> (text: String)
        ensures
            text@ == self@.render(),
    {
        let mut text = String::new();
        self.fmt(&mut text);
        text
    }
}

} // verus!
