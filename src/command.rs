//! Planning each file's target name and deciding what to do with it.
use crate::arguments::{Args, ArgsView};
use crate::error::MvxError;
use crate::utils::{
    basename_of, check_files, failure_of, file_passes, first_failing, get_basename,
    is_first_occurrence, lemma_basename_at_first, lemma_first_occurrence_exists, occurs_at,
};
use vstd::prelude::*;

verus! {

/// Whether files are copied or moved.
#[derive(Clone, Copy, Debug, PartialEq, Eq, Structural)]
pub enum Operation {
    Copy,
    Move,
}

/// One step for the caller to carry out.
#[derive(Debug)]
pub enum Effect {
    /// Write this line to standard output; the filesystem is untouched.
    Print(String),
    /// Copy the first file to the second.
    Copy(String, String),
    /// Rename the first file to the second.
    Rename(String, String),
}

/// The mathematical content of `Effect`.
pub ghost enum EffectView {
    Print(Seq<char>),
    Copy(Seq<char>, Seq<char>),
    Rename(Seq<char>, Seq<char>),
}

impl View for Effect {
    type V = EffectView;

    open spec fn view(&self) -> EffectView {
        match self {
            Effect::Print(l) => EffectView::Print(l@),
            Effect::Copy(s, t) => EffectView::Copy(s@, t@),
            Effect::Rename(s, t) => EffectView::Rename(s@, t@),
        }
    }
}

/// The target name of `source`: with a suffix to remove, the name cut at
/// its leftmost occurrence, followed by the suffix to add if any; with only
/// a suffix to add, the name followed by it. `None` when no suffix is given
/// or when the suffix to remove does not appear in `source`.
pub open spec fn target_of(source: Seq<char>, a: ArgsView) -> Option<Seq<char>> {
    match a.remove {
        Some(x) => match basename_of(source, x) {
            Some(b) => match a.add {
                Some(y) => Some(b + y),
                None => Some(b),
            },
            None => None,
        },
        None => match a.add {
            Some(y) => Some(source + y),
            None => None,
        },
    }
}

/// The operation selected by the copy flag.
pub open spec fn operation_of(copy: bool) -> Operation {
    if copy {
        Operation::Copy
    } else {
        Operation::Move
    }
}

/// The shell command word of an operation.
pub open spec fn command_word(op: Operation) -> Seq<char> {
    match op {
        Operation::Copy => "cp"@,
        Operation::Move => "mv"@,
    }
}

/// The line that reports an action in a dry run.
pub open spec fn line_of(op: Operation, source: Seq<char>, target: Seq<char>) -> Seq<char> {
    command_word(op) + " "@ + source + " "@ + target
}

/// What is done for one source and target.
pub open spec fn effect_of(
    dry_run: bool,
    op: Operation,
    source: Seq<char>,
    target: Seq<char>,
) -> EffectView {
    if dry_run {
        EffectView::Print(line_of(op, source, target))
    } else {
        match op {
            Operation::Copy => EffectView::Copy(source, target),
            Operation::Move => EffectView::Rename(source, target),
        }
    }
}

/// The steps for every file, in argument order.
pub open spec fn planned_effects(a: ArgsView, op: Operation) -> Seq<EffectView> {
    Seq::new(
        a.filenames.len(),
        |k: int| effect_of(a.dry_run, op, a.filenames[k], target_of(a.filenames[k], a)->0),
    )
}

/// Every file has a target name.
pub open spec fn all_planned(a: ArgsView) -> bool {
    forall|k: int| 0 <= k < a.filenames.len() ==> target_of(a.filenames[k], a) is Some
}

/// `k` is the first file without a target name.
pub open spec fn first_unplanned(a: ArgsView, k: int) -> bool {
    &&& 0 <= k < a.filenames.len()
    &&& target_of(a.filenames[k], a) is None
    &&& forall|j: int| 0 <= j < k ==> target_of(a.filenames[j], a) is Some
}

/// `e` reports why `source` has no target name.
pub open spec fn plan_failure(a: ArgsView, source: Seq<char>, e: MvxError) -> bool {
    match a.remove {
        Some(x) => e matches MvxError::SuffixMismatch(f, y) && f@ == source && y@ == x,
        None => e is NoOperation,
    }
}

/// Computes the target name of `source`.
pub fn target_name(source: &str, args: &Args) -> (r: Result<String, MvxError>)
    ensures
        r is Ok <==> target_of(source@, args@) is Some,
        r matches Ok(t) ==> target_of(source@, args@) == Some(t@),
        r matches Err(e) ==> plan_failure(args@, source@, e),
{
    if let Some(x) = &args.remove {
        match get_basename(source, x.as_str()) {
            Some(b) => {
                let mut t = String::from_str(b);
                if let Some(y) = &args.add {
                    t.append(y.as_str());
                }
                Ok(t)
            },
            None => Err(MvxError::SuffixMismatch(String::from_str(source), x.clone())),
        }
    } else if let Some(y) = &args.add {
        let mut t = String::from_str(source);
        t.append(y.as_str());
        Ok(t)
    } else {
        Err(MvxError::NoOperation)
    }
}

/// The dry-run line `<word> <source> <target>`.
fn describe(word: &str, source: &str, target: &str) -> (r: String)
    ensures
        r@ == word@ + " "@ + source@ + " "@ + target@,
{
    let mut r = String::from_str(word);
    r.append(" ");
    r.append(source);
    r.append(" ");
    r.append(target);
    r
}

/// Copies `source` to `target`, or only reports it in a dry run.
pub fn copy_fn(args: &Args, source: &str, target: &str) -> (r: Effect)
    ensures
        r@ == effect_of(args.dry_run, Operation::Copy, source@, target@),
{
    if args.dry_run {
        Effect::Print(describe("cp", source, target))
    } else {
        Effect::Copy(String::from_str(source), String::from_str(target))
    }
}

/// Moves `source` to `target`, or only reports it in a dry run.
pub fn mv_fn(args: &Args, source: &str, target: &str) -> (r: Effect)
    ensures
        r@ == effect_of(args.dry_run, Operation::Move, source@, target@),
{
    if args.dry_run {
        Effect::Print(describe("mv", source, target))
    } else {
        Effect::Rename(String::from_str(source), String::from_str(target))
    }
}

impl Operation {
    /// The step that carries out this operation on one file.
    pub fn apply(self, args: &Args, source: &str, target: &str) -> (r: Effect)
        ensures
            r@ == effect_of(args.dry_run, self, source@, target@),
    {
        match self {
            Operation::Copy => copy_fn(args, source, target),
            Operation::Move => mv_fn(args, source, target),
        }
    }
}

/// Selects copying or moving from the options.
pub fn operation(args: &Args) -> (r: Operation)
    ensures
        r == operation_of(args.copy),
{
    if args.copy {
        Operation::Copy
    } else {
        Operation::Move
    }
}

/// Plans every file in argument order and returns the steps that carry
/// out `op` on each. Fails, before any step, at the first file without a
/// target name.
pub fn process(args: &Args, op: Operation) -> (r: Result<Vec<Effect>, MvxError>)
    ensures
        r is Ok <==> all_planned(args@),
        r matches Ok(v) ==> v@.map_values(|e: Effect| e@) == planned_effects(args@, op),
        r matches Err(e) ==> exists|k: int|
            first_unplanned(args@, k) && plan_failure(args@, args@.filenames[k], e),
{
    let n = args.filenames.len();
    let mut out: Vec<Effect> = Vec::new();
    let mut i: usize = 0;
    while i < n
        invariant
            n == args.filenames@.len(),
            i <= n,
            out@.len() == i,
            forall|j: int| 0 <= j < i ==> target_of(args@.filenames[j], args@) is Some,
            forall|j: int|
                0 <= j < i ==> #[trigger] out@[j]@ == planned_effects(args@, op)[j],
        decreases n - i,
    {
        let source = args.filenames[i].as_str();
        assert(args@.filenames[i as int] == source@);
        match target_name(source, args) {
            Ok(target) => {
                let e = op.apply(args, source, target.as_str());
                out.push(e);
            },
            Err(e) => {
                assert(first_unplanned(args@, i as int));
                return Err(e);
            },
        }
        i = i + 1;
    }
    assert(out@.map_values(|e: Effect| e@) =~= planned_effects(args@, op));
    Ok(out)
}

/// The whole invocation goes through: some file is named, every file
/// passes validation, and a suffix to add or to remove is given.
pub open spec fn run_succeeds(a: ArgsView, exists: Seq<bool>) -> bool {
    &&& a.filenames.len() > 0
    &&& forall|k: int| 0 <= k < a.filenames.len() ==> file_passes(a, exists, k)
    &&& (a.add is Some || a.remove is Some)
}

/// `e` is the error with which the invocation stops.
pub open spec fn run_failure(a: ArgsView, exists: Seq<bool>, e: MvxError) -> bool {
    if a.filenames.len() == 0 {
        e is NoFilenames
    } else if exists|k: int| first_failing(a, exists, k) {
        exists|k: int| first_failing(a, exists, k) && failure_of(a, exists, k, e)
    } else {
        e is NoOperation
    }
}

/// Files that pass validation all have a target name once a suffix is given.
pub proof fn lemma_validated_files_are_planned(a: ArgsView, exists: Seq<bool>)
    requires
        run_succeeds(a, exists),
    ensures
        all_planned(a),
{
    assert forall|k: int| 0 <= k < a.filenames.len() implies target_of(
        a.filenames[k],
        a,
    ) is Some by {
        assert(file_passes(a, exists, k));
        if let Some(x) = a.remove {
            let i = choose|i: int| occurs_at(a.filenames[k], x, i);
            lemma_first_occurrence_exists(a.filenames[k], x, i);
            let f = choose|f: int| is_first_occurrence(a.filenames[k], x, f);
            lemma_basename_at_first(a.filenames[k], x, f);
        }
    }
}

/// Adding a suffix and then removing the same suffix gives back the name
/// it started from, whenever the suffix does not appear in the longer name
/// before the place where it was added.
pub proof fn lemma_add_then_remove_restores(f: Seq<char>, x: Seq<char>, a: ArgsView)
    requires
        forall|j: int| 0 <= j < f.len() ==> !occurs_at(f + x, x, j),
    ensures
        target_of(f, ArgsView { add: Some(x), remove: None, ..a }) == Some(f + x),
        target_of(f + x, ArgsView { add: None, remove: Some(x), ..a }) == Some(f),
{
    let t = f + x;
    assert(t.subrange(f.len() as int, f.len() + x.len() as int) =~= x);
    assert(is_first_occurrence(t, x, f.len() as int));
    lemma_basename_at_first(t, x, f.len() as int);
    assert(t.subrange(0, f.len() as int) =~= f);
}

/// A dry run only prints: every planned step is a line of output, so the
/// filesystem is left as it was.
pub proof fn lemma_dry_run_only_prints(a: ArgsView, op: Operation)
    requires
        a.dry_run,
    ensures
        forall|k: int| 0 <= k < a.filenames.len() ==> #[trigger] planned_effects(a, op)[k] is Print,
{
}

/// A missing file that follows only valid ones stops the invocation with
/// an error naming it, before any step is carried out.
pub proof fn lemma_missing_file_stops_run(a: ArgsView, exists: Seq<bool>, k: int)
    requires
        exists.len() == a.filenames.len(),
        0 <= k < a.filenames.len(),
        !exists[k],
        forall|j: int| 0 <= j < k ==> file_passes(a, exists, j),
    ensures
        !run_succeeds(a, exists),
        forall|e: MvxError| #[trigger] run_failure(a, exists, e) ==> (e matches MvxError::NotFound(
            f,
        ) && f@ == a.filenames[k]),
{
    assert(first_failing(a, exists, k));
    assert forall|e: MvxError| #[trigger] run_failure(a, exists, e) implies (e matches MvxError::NotFound(
        f,
    ) && f@ == a.filenames[k]) by {
        let q = choose|q: int| first_failing(a, exists, q) && failure_of(a, exists, q, e);
        assert(!(q < k));
        assert(!(k < q));
    }
}

/// Runs one invocation: requires at least one file, validates every file
/// (`exists[k]` tells whether file `k` exists), then plans them all. The
/// steps are returned only when nothing failed, so a failure leaves every
/// file untouched.
pub fn run(args: &Args, exists: &Vec<bool>) -> (r: Result<Vec<Effect>, MvxError>)
    requires
        exists@.len() == args.filenames@.len(),
    ensures
        r is Ok <==> run_succeeds(args@, exists@),
        r matches Ok(v) ==> v@.map_values(|e: Effect| e@) == planned_effects(
            args@,
            operation_of(args.copy),
        ),
        r matches Err(e) ==> run_failure(args@, exists@, e),
{
    if args.filenames.len() == 0 {
        return Err(MvxError::NoFilenames);
    }
    match check_files(args, exists) {
        Ok(()) => {},
        Err(e) => {
            return Err(e);
        },
    }
    if args.add.is_none() && args.remove.is_none() {
        assert(target_of(args@.filenames[0], args@) is None);
        assert(!exists|k: int| first_failing(args@, exists@, k));
        return Err(MvxError::NoOperation);
    }
    proof {
        lemma_validated_files_are_planned(args@, exists@);
    }
    process(args, operation(args))
}

} // verus!
