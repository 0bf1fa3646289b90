//! Task scripts: plain command strings, commands with arguments and aliases, the tasks each
//! depends on, and the quoting of arguments for the shell.
use vstd::prelude::*;

verus! {

/// The characters that force an argument to be quoted.
pub open spec fn is_blank(c: char) -> bool {
    c == '\t' || c == '\r' || c == '\n' || c == ' '
}

pub open spec fn needs_quotes(s: Seq<char>) -> bool {
    exists|i: int| 0 <= i < s.len() && is_blank(s[i])
}

/// A double quote or a backslash is preceded by a backslash inside quotes.
pub open spec fn escape_char(c: char) -> Seq<char> {
    if c == '"' || c == '\\' {
        seq!['\\', c]
    } else {
        seq![c]
    }
}

pub open spec fn escaped(s: Seq<char>) -> Seq<char>
    decreases s.len(),
{
    if s.len() == 0 {
        Seq::empty()
    } else {
        escaped(s.drop_last()) + escape_char(s.last())
    }
}

/// How one argument is written so that the shell reads it back as one word.
pub open spec fn quoted(s: Seq<char>) -> Seq<char> {
    if s.len() == 0 {
        seq!['"', '"']
    } else if needs_quotes(s) {
        seq!['"'] + escaped(s) + seq!['"']
    } else {
        s
    }
}

/// The parts in order, with `sep` between each two of them.
pub open spec fn joined(parts: Seq<Seq<char>>, sep: Seq<char>) -> Seq<char>
    decreases parts.len(),
{
    if parts.len() == 0 {
        Seq::empty()
    } else if parts.len() == 1 {
        parts[0]
    } else {
        joined(parts.drop_last(), sep) + sep + parts.last()
    }
}

pub open spec fn views(v: Seq<String>) -> Seq<Seq<char>> {
    v.map_values(|s: String| s@)
}

/// Relies on `String::push`: the character is appended.
#[verifier::external_body]
pub(crate) fn push_char(s: &mut String, c: char)
    ensures
        final(s)@ == old(s)@.push(c),
{
    s.push(c)
}

/// Relies on `itertools::join`: the `Display` form of each item (a `String` as it
/// is) in order, with `sep` between each two.
#[verifier::external_body]
fn join_strings(parts: &Vec<String>, sep: &str) -> (r: String)
    ensures
        r@ == joined(views(parts@), sep@),
{
    itertools::join(parts, sep)
}

/// Quotes a string argument if it requires quotes to be able to be properly represented in our
/// shell implementation.
pub fn quote(in_str: &str) -> (r: String)
    ensures
        r@ == quoted(in_str@),
{
    let mut out = String::new();
    let mut blank = false;
    for c in it: in_str.chars()
        invariant
            it.seq() == in_str@,
            out@ == escaped(it.seq().take(it.index() as int)),
            blank == needs_quotes(it.seq().take(it.index() as int)),
    {
        let ghost before = it.seq().take(it.index() as int);
        proof {
            assert(it.seq().take(it.index() + 1).drop_last() =~= before);
        }
        if c == '"' || c == '\\' {
            push_char(&mut out, '\\');
        }
        push_char(&mut out, c);
        if c == '\t' || c == '\r' || c == '\n' || c == ' ' {
            blank = true;
        }
        proof {
            let after = it.seq().take(it.index() + 1);
            assert(out@ =~= escaped(after));
            if needs_quotes(before) {
                let i = choose|i: int| 0 <= i < before.len() && is_blank(before[i]);
                assert(after[i] == before[i]);
            }
            if needs_quotes(after) && !is_blank(c) {
                let i = choose|i: int| 0 <= i < after.len() && is_blank(after[i]);
                assert(before[i] == after[i]);
            }
            if is_blank(c) {
                assert(is_blank(after[it.index() as int]));
            }
        }
    }
    assert(in_str@.take(in_str@.len() as int) =~= in_str@);
    if in_str.is_empty() {
        let mut r = String::new();
        push_char(&mut r, '"');
        push_char(&mut r, '"');
        assert(r@ =~= quoted(in_str@));
        r
    } else if blank {
        let mut r = String::new();
        push_char(&mut r, '"');
        r.append(out.as_str());
        push_char(&mut r, '"');
        assert(r@ =~= quoted(in_str@));
        r
    } else {
        in_str.to_owned()
    }
}

/// Copies a list of strings, element for element.
pub(crate) fn copy_strings(v: &Vec<String>) -> (r: Vec<String>)
    ensures
        r@ == v@,
{
    let mut r: Vec<String> = Vec::new();
    for i in 0..v.len()
        invariant
            r@ == v@.take(i as int),
    {
        r.push(v[i].clone());
        assert(r@ =~= v@.take(i + 1));
    }
    assert(v@.take(v.len() as int) =~= v@);
    r
}

/// Quotes multiple string arguments and joins them together to form a single string.
pub fn quote_arguments(args: &[&str]) -> (r: String)
    ensures
        r@ == joined(args@.map_values(|a: &str| quoted(a@)), seq![' ']),
{
    let mut parts: Vec<String> = Vec::new();
    let mut i: usize = 0;
    while i < args.len()
        invariant
            i <= args.len(),
            views(parts@) == args@.take(i as int).map_values(|a: &str| quoted(a@)),
        decreases args.len() - i,
    {
        let q = quote(args[i]);
        let ghost prev = parts@;
        parts.push(q);
        assert(views(parts@) =~= views(prev).push(q@));
        assert(args@.take(i + 1).map_values(|a: &str| quoted(a@)) =~= args@.take(
            i as int,
        ).map_values(|a: &str| quoted(a@)).push(quoted(args@[i as int]@)));
        i = i + 1;
    }
    assert(args@.take(args.len() as int) =~= args@);
    let sep = " ";
    proof {
        reveal_strlit(" ");
        assert(sep@ =~= seq![' ']);
    }
    join_strings(&parts, sep)
}

/// Quotes each argument and joins the results with single spaces.
fn quote_all(args: &Vec<String>) -> (r: String)
    ensures
        r@ == joined(args@.map_values(|a: String| quoted(a@)), seq![' ']),
{
    let mut parts: Vec<String> = Vec::new();
    let mut i: usize = 0;
    while i < args.len()
        invariant
            i <= args.len(),
            views(parts@) == args@.take(i as int).map_values(|a: String| quoted(a@)),
        decreases args.len() - i,
    {
        let q = quote(args[i].as_str());
        let ghost prev = parts@;
        parts.push(q);
        assert(views(parts@) =~= views(prev).push(q@));
        assert(args@.take(i + 1).map_values(|a: String| quoted(a@)) =~= args@.take(
            i as int,
        ).map_values(|a: String| quoted(a@)).push(quoted(args@[i as int]@)));
        i = i + 1;
    }
    assert(args@.take(args.len() as int) =~= args@);
    let sep = " ";
    proof {
        reveal_strlit(" ");
        assert(sep@ =~= seq![' ']);
    }
    join_strings(&parts, sep)
}

/// The arguments of a command: one command line, or a list of arguments of which the first
/// names the program.
#[derive(Debug, Clone)]
pub enum CmdArgs {
    Single(String),
    Multiple(Vec<String>),
}

/// What a [`CmdArgs`] holds, as mathematical values.
pub enum CommandLine {
    Single(Seq<char>),
    Multiple(Seq<Seq<char>>),
}

impl CommandLine {
    /// The command line that these arguments stand for: a list of arguments is quoted and
    /// joined with single spaces.
    pub open spec fn single_spec(self) -> Seq<char> {
        match self {
            CommandLine::Single(cmd) => cmd,
            CommandLine::Multiple(args) => joined(
                args.map_values(|a: Seq<char>| quoted(a)),
                seq![' '],
            ),
        }
    }
}

impl View for CmdArgs {
    type V = CommandLine;

    open spec fn view(&self) -> CommandLine {
        match self {
            CmdArgs::Single(cmd) => CommandLine::Single(cmd@),
            CmdArgs::Multiple(args) => CommandLine::Multiple(views(args@)),
        }
    }
}

impl CmdArgs {

    /// A copy with the same contents.
    pub fn duplicate(&self) -> (r: CmdArgs)
        ensures
            r@ == self@,
    {
        match self {
            CmdArgs::Single(cmd) => {
                CmdArgs::Single(cmd.clone())
            },
            CmdArgs::Multiple(args) => {
                CmdArgs::Multiple(copy_strings(args))
            },
        }
    }

    /// Returns a single string representation of the command arguments.
    pub fn as_single(&self) -> (r: String)
        ensures
            r@ == self@.single_spec(),
    {
        match self {
            CmdArgs::Single(cmd) => cmd.clone(),
            CmdArgs::Multiple(args) => {
                let r = quote_all(args);
                assert(args@.map_values(|a: String| quoted(a@)) =~= views(args@).map_values(
                    |a: Seq<char>| quoted(a),
                ));
                r
            },
        }
    }

    /// Returns a single string representation of the command arguments.
    pub fn into_single(self) -> (r: String)
        ensures
            r@ == self@.single_spec(),
    {
        match self {
            CmdArgs::Single(cmd) => cmd,
            CmdArgs::Multiple(args) => {
                let r = quote_all(&args);
                assert(args@.map_values(|a: String| quoted(a@)) =~= views(args@).map_values(
                    |a: Seq<char>| quoted(a),
                ));
                r
            },
        }
    }
}

/// A command script executes a single command from the environment.
#[derive(Debug, Clone)]
pub struct Execute {
    /// A list of arguments, the first argument denotes the command to run.
    pub cmd: CmdArgs,
    /// A list of commands that should be run before this one.
    pub depends_on: Vec<String>,
}

/// A task that only runs the tasks it depends on.
#[derive(Debug, Clone)]
pub struct Alias {
    /// A list of commands that should be run before this one.
    pub depends_on: Vec<String>,
}

/// How the tasks that must run first are shown: nothing where there are none, one name in
/// single quotes, several as a bracketed list, separated by commas.
pub open spec fn depends_on_text(deps: Seq<Seq<char>>) -> Seq<char> {
    if deps.len() == 0 {
        Seq::empty()
    } else if deps.len() == 1 {
        "depends_on = '"@ + joined(deps, seq![',']) + "'"@
    } else {
        "depends_on = ["@ + joined(deps, seq![',']) + "]"@
    }
}

/// How a command is shown: a list of arguments is joined with spaces, without quoting.
pub open spec fn command_text(cmd: CommandLine) -> Seq<char> {
    match cmd {
        CommandLine::Single(c) => c,
        CommandLine::Multiple(args) => joined(args, seq![' ']),
    }
}

fn depends_on_string(deps: &Vec<String>) -> (r: String)
    ensures
        r@ == depends_on_text(views(deps@)),
{
    let mut r = String::new();
    if deps.len() == 0 {
        return r;
    }
    let comma = ",";
    proof {
        reveal_strlit(",");
        reveal_strlit("depends_on = '");
        reveal_strlit("depends_on = [");
        reveal_strlit("'");
        reveal_strlit("]");
        assert(comma@ =~= seq![',']);
    }
    let list = join_strings(deps, comma);
    if deps.len() == 1 {
        r.append("depends_on = '");
        r.append(list.as_str());
        r.append("'");
    } else {
        r.append("depends_on = [");
        r.append(list.as_str());
        r.append("]");
    }
    r
}

/// Represents different types of scripts.
#[derive(Debug, Clone)]
pub enum Task {
    Plain(String),
    Execute(Execute),
    Alias(Alias),
}

impl Task {
    /// The names of the tasks that must run first.
    pub open spec fn depends_on_spec(&self) -> Seq<String> {
        match self {
            Task::Plain(_) => Seq::empty(),
            Task::Execute(cmd) => cmd.depends_on@,
            Task::Alias(cmd) => cmd.depends_on@,
        }
    }

    /// The command that runs, where there is one.
    pub open spec fn command_spec(&self) -> Option<CommandLine> {
        match self {
            Task::Plain(cmd) => Some(CommandLine::Single(cmd@)),
            Task::Execute(exe) => Some(exe.cmd@),
            Task::Alias(_) => None,
        }
    }

    /// Returns the names of the tasks that must run first.
    pub fn depends_on(&self) -> (r: &[String])
        ensures
            r@ == self.depends_on_spec(),
    {
        match self {
            Task::Plain(_) => &[],
            Task::Execute(cmd) => cmd.depends_on.as_slice(),
            Task::Alias(cmd) => cmd.depends_on.as_slice(),
        }
    }

    /// For a plain command string, returns it.
    pub fn as_plain(&self) -> (r: Option<&String>)
        ensures
            r is Some <==> self is Plain,
            r is Some ==> *r->0 == self->Plain_0,
    {
        match self {
            Task::Plain(str) => Some(str),
            _ => None,
        }
    }

    /// If this command is an execute command, returns the [`Execute`] task.
    pub fn as_execute(&self) -> (r: Option<&Execute>)
        ensures
            r is Some <==> self is Execute,
            r is Some ==> *r->0 == self->Execute_0,
    {
        match self {
            Task::Execute(execute) => Some(execute),
            _ => None,
        }
    }

    /// If this command is an alias, returns the [`Alias`] task.
    pub fn as_alias(&self) -> (r: Option<&Alias>)
        ensures
            r is Some <==> self is Alias,
            r is Some ==> *r->0 == self->Alias_0,
    {
        match self {
            Task::Alias(alias) => Some(alias),
            _ => None,
        }
    }

    /// Returns true if it runs a command itself.
    pub fn is_executable(&self) -> (r: bool)
        ensures
            r == !(self is Alias),
    {
        match self {
            Task::Plain(_) | Task::Execute(_) => true,
            Task::Alias(_) => false,
        }
    }

    /// Returns the command to execute.
    pub fn as_command(&self) -> (r: Option<CmdArgs>)
        ensures
            r is Some <==> self.command_spec() is Some,
            r is Some ==> r->0@ == self.command_spec()->0,
    {
        match self {
            Task::Plain(cmd) => Some(CmdArgs::Single(cmd.clone())),
            Task::Execute(exe) => Some(exe.cmd.duplicate()),
            Task::Alias(_) => None,
        }
    }

    /// Returns the command to execute as a single string.
    pub fn as_single_command(&self) -> (r: Option<String>)
        ensures
            r is Some <==> self.command_spec() is Some,
            r is Some ==> r->0@ == self.command_spec()->0.single_spec(),
    {
        match self {
            Task::Plain(cmd) => Some(cmd.clone()),
            Task::Execute(exe) => Some(exe.cmd.as_single()),
            Task::Alias(_) => None,
        }
    }

    /// How the task is shown to a user: its command, then the tasks that must run first.
    pub open spec fn display_spec(&self) -> Seq<char> {
        match self {
            Task::Plain(cmd) => cmd@,
            Task::Execute(exe) => command_text(exe.cmd@) + (if exe.depends_on.len() > 0 {
                ", "@
            } else {
                Seq::empty()
            }) + depends_on_text(views(exe.depends_on@)),
            Task::Alias(alias) => depends_on_text(views(alias.depends_on@)),
        }
    }

    /// The text a user sees for the task.
    pub fn display_string(&self) -> (r: String)
        ensures
            r@ == self.display_spec(),
    {
        proof {
            reveal_strlit(", ");
            reveal_strlit(" ");
        }
        match self {
            Task::Plain(cmd) => cmd.clone(),
            Task::Execute(exe) => {
                let mut r = match &exe.cmd {
                    CmdArgs::Single(cmd) => cmd.clone(),
                    CmdArgs::Multiple(mult) => {
                        let sep = " ";
                        assert(sep@ =~= seq![' ']);
                        join_strings(mult, sep)
                    },
                };
                if exe.depends_on.len() > 0 {
                    r.append(", ");
                }
                let deps = depends_on_string(&exe.depends_on);
                r.append(deps.as_str());
                r
            },
            Task::Alias(alias) => depends_on_string(&alias.depends_on),
        }
    }

}

impl From<Vec<String>> for CmdArgs {
    fn from(value: Vec<String>) -> (r: CmdArgs)
        ensures
            r == CmdArgs::Multiple(value),
    {
        CmdArgs::Multiple(value)
    }
}

impl vstd::std_specs::convert::FromSpecImpl<Vec<String>> for CmdArgs {
    open spec fn obeys_from_spec() -> bool {
        true
    }

    open spec fn from_spec(v: Vec<String>) -> CmdArgs {
        CmdArgs::Multiple(v)
    }
}

impl From<String> for CmdArgs {
    fn from(value: String) -> (r: CmdArgs)
        ensures
            r == CmdArgs::Single(value),
    {
        CmdArgs::Single(value)
    }
}

impl vstd::std_specs::convert::FromSpecImpl<String> for CmdArgs {
    open spec fn obeys_from_spec() -> bool {
        true
    }

    open spec fn from_spec(v: String) -> CmdArgs {
        CmdArgs::Single(v)
    }
}

impl From<Execute> for Task {
    fn from(value: Execute) -> (r: Task)
        ensures
            r == Task::Execute(value),
    {
        Task::Execute(value)
    }
}

impl vstd::std_specs::convert::FromSpecImpl<Execute> for Task {
    open spec fn obeys_from_spec() -> bool {
        true
    }

    open spec fn from_spec(v: Execute) -> Task {
        Task::Execute(v)
    }
}

} // verus!
