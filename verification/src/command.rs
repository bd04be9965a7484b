use vstd::prelude::*;

use crate::text::{join, join_strings, lemma_views_push, owned, push_char, push_str, views};

verus! {

/// One system command: a program and its arguments.
#[derive(Debug, Clone, PartialEq, Eq)]
pub struct CommandPlan {
    pub program: String,
    pub args: Vec<String>,
}

/// What a command is, as text.
#[verifier::ext_equal]
pub struct CmdView {
    pub program: Seq<char>,
    pub args: Seq<Seq<char>>,
}

impl View for CommandPlan {
    type V = CmdView;

    open spec fn view(&self) -> CmdView {
        CmdView { program: self.program@, args: views(self.args@) }
    }
}

/// The command with the given program and arguments.
pub open spec fn cv(program: Seq<char>, args: Seq<Seq<char>>) -> CmdView {
    CmdView { program, args }
}

/// The views of a sequence of commands.
pub open spec fn plans(v: Seq<CommandPlan>) -> Seq<CmdView> {
    v.map_values(|c: CommandPlan| c@)
}

/// The views of a sequence of string slices.
pub open spec fn str_views(v: Seq<&str>) -> Seq<Seq<char>> {
    v.map_values(|x: &str| x@)
}

/// Owned copies of the given string slices.
pub fn strings_of(parts: &[&str]) -> (r: Vec<String>)
    ensures
        views(r@) == str_views(parts@),
{
    let mut r: Vec<String> = Vec::new();
    let mut i: usize = 0;
    while i < parts.len()
        invariant
            0 <= i <= parts.len(),
            views(r@) == str_views(parts@).take(i as int),
        decreases parts.len() - i,
    {
        let ghost before = r@;
        let item = owned(parts[i]);
        r.push(item);
        proof {
            lemma_views_push(before, item);
            assert(str_views(parts@).take(i + 1) =~= str_views(parts@).take(i as int).push(parts@[i as int]@));
        }
        i += 1;
    }
    assert(str_views(parts@).take(parts@.len() as int) == str_views(parts@));
    r
}

/// A copy of a vector of strings.
pub fn clone_strings(v: &Vec<String>) -> (r: Vec<String>)
    ensures
        r@ == v@,
{
    let mut r: Vec<String> = Vec::new();
    let mut i: usize = 0;
    while i < v.len()
        invariant
            0 <= i <= v.len(),
            r@ == v@.take(i as int),
        decreases v.len() - i,
    {
        r.push(v[i].clone());
        assert(r@ == v@.take(i + 1));
        i += 1;
    }
    assert(v@.take(v@.len() as int) == v@);
    r
}

/// A copy of an optional string.
pub fn clone_opt_string(v: &Option<String>) -> (r: Option<String>)
    ensures
        r == *v,
{
    match v {
        Some(s) => Some(s.clone()),
        None => None,
    }
}

pub proof fn lemma_plans_push(v: Seq<CommandPlan>, x: CommandPlan)
    ensures
        plans(v.push(x)) == plans(v).push(x@),
{
    assert(plans(v.push(x)) =~= plans(v).push(x@));
}

/// Appends all of `more` to `out`.
pub fn append_plans(out: &mut Vec<CommandPlan>, more: Vec<CommandPlan>)
    ensures
        plans(final(out)@) == plans(old(out)@) + plans(more@),
{
    let ghost start = out@;
    let mut i: usize = 0;
    while i < more.len()
        invariant
            0 <= i <= more.len(),
            plans(out@) == plans(start) + plans(more@).take(i as int),
        decreases more.len() - i,
    {
        let ghost before = out@;
        let item = more[i].copy();
        out.push(item);
        proof {
            lemma_plans_push(before, item);
            assert(plans(more@).take(i + 1) =~= plans(more@).take(i as int).push(more@[i as int]@));
        }
        i += 1;
    }
    assert(plans(more@).take(more@.len() as int) == plans(more@));
}

impl CommandPlan {
    /// A copy of this command.
    pub fn copy(&self) -> (r: CommandPlan)
        ensures
            r@ == self@,
    {
        CommandPlan { program: self.program.clone(), args: clone_strings(&self.args) }
    }

    /// A command for `program` with the given arguments.
    pub fn new(program: &str, args: &[&str]) -> (c: CommandPlan)
        ensures
            c@ == cv(program@, str_views(args@)),
    {
        CommandPlan { program: owned(program), args: strings_of(args) }
    }

    /// `program` and its arguments, space separated (as the command line reads).
    pub fn command_line(&self) -> (r: String)
        ensures
            r@ == self.program@ + seq![' '] + join(views(self.args@), seq![' ']),
    {
        let mut r = self.program.clone();
        push_char(&mut r, ' ');
        let rest = join_strings(&self.args, " ");
        proof {
            reveal_strlit(" ");
            assert(" "@ =~= seq![' ']);
        }
        push_str(&mut r, rest.as_str());
        r
    }
}

/// A `sh -c <script>` command.
pub open spec fn sh(script: Seq<char>) -> CmdView {
    cv("sh"@, seq!["-c"@, script])
}

pub fn sh_command(script: &str) -> (c: CommandPlan)
    ensures
        c@ == sh(script@),
{
    let c = CommandPlan::new("sh", &["-c", script]);
    assert(str_views(seq!["-c", script]) == seq!["-c"@, script@]);
    c
}

} // verus!
