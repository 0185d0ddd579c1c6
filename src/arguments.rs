//! The resolved options of one invocation.
use vstd::prelude::*;

verus! {

/// Options of one invocation, as handed over by the command line.
pub struct Args {
    /// Files to operate on, in argument order.
    pub filenames: Vec<String>,
    /// Report the actions instead of performing them.
    pub dry_run: bool,
    /// Print the manual page and stop.
    pub man_page: bool,
    /// Copy the files instead of moving them.
    pub copy: bool,
    /// Literal text appended to each target name.
    pub add: Option<String>,
    /// Literal text cut from each source name.
    pub remove: Option<String>,
}

/// The mathematical content of `Args`.
pub ghost struct ArgsView {
    pub filenames: Seq<Seq<char>>,
    pub dry_run: bool,
    pub man_page: bool,
    pub copy: bool,
    pub add: Option<Seq<char>>,
    pub remove: Option<Seq<char>>,
}

pub open spec fn opt_view(o: Option<String>) -> Option<Seq<char>> {
    match o {
        Some(s) => Some(s@),
        None => None,
    }
}

impl View for Args {
    type V = ArgsView;

    open spec fn view(&self) -> ArgsView {
        ArgsView {
            filenames: self.filenames@.map_values(|s: String| s@),
            dry_run: self.dry_run,
            man_page: self.man_page,
            copy: self.copy,
            add: opt_view(self.add),
            remove: opt_view(self.remove),
        }
    }
}

/// The program name (without directory or extension) under which the
/// tool copies instead of moving.
pub open spec fn copy_alias() -> Seq<char> {
    "cpx"@
}

/// Forces copy mode when the program runs under its copy alias; leaves
/// everything else unchanged.
pub fn apply_program_name(args: &mut Args, stem: &str)
    ensures
        final(args)@ == (ArgsView { copy: old(args).copy || stem@ == copy_alias(), ..old(args)@ }),
{
    let alias = String::from_str("cpx");
    let name = String::from_str(stem);
    if name == alias {
        args.copy = true;
    }
}

} // verus!
