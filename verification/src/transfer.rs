//! Moving a file into a directory: under its own name if that is free there,
//! else under a numbered one; by renaming it, or else by copying it and
//! removing the original.

use crate::path::{
    extension, extension_of, file_name_of, file_stem, is_plain, is_separator, is_slash,
    is_verbatim, name_is_cut_at_its_last_dot, name_is_stem_and_extension,
    name_without_an_inner_dot_is_all_stem, names_hold_no_separator, plain_name_is_itself, stem_of,
};
use crate::text::{append_decimal, decimal, decimal_is_injective};
use vstd::prelude::*;

verus! {

/// How many names are tried before the time of day is used instead of a number:
/// the file's own, and those numbered from 1 to 999.
pub const TRIED: u32 = 1000;

/// Why a file was not moved.
#[derive(Clone, Copy, PartialEq, Eq, Structural, Debug)]
pub enum Failure {
    /// The directory was not there and could not be made.
    NoDirectory,
    /// The path of the file does not end in a name.
    NoFileName,
    /// The file could neither be renamed nor copied.
    NotMoved,
    /// The file was copied, but is still where it was, too.
    NotRemoved,
}

/// What to do next.  Names are given by their number: see `candidate`.
#[derive(Clone, Copy, PartialEq, Eq, Structural, Debug)]
pub enum Step {
    /// Make the directory.
    MakeDirectory,
    /// Look whether the name is taken.
    Probe(u32),
    /// Rename the file into the directory.
    Rename(u32),
    /// Copy the file into the directory.
    Copy(u32),
    /// Remove the file that has been copied.
    RemoveOriginal(u32),
    /// The file is there, under this name.
    Done(u32),
    /// The file was not moved.
    Failed(Failure),
}

/// What the first step is: the directory may have to be made.
pub open spec fn first_step(directory_exists: bool, has_name: bool) -> Step {
    if !directory_exists {
        Step::MakeDirectory
    } else if !has_name {
        Step::Failed(Failure::NoFileName)
    } else {
        Step::Probe(0)
    }
}

/// What follows a step, by what came of it: whether the directory was made, the
/// name was taken, the file was renamed, copied, or removed where it was.
pub open spec fn step_after(step: Step, yes: bool, has_name: bool) -> Step {
    match step {
        Step::MakeDirectory => if !yes {
            Step::Failed(Failure::NoDirectory)
        } else if !has_name {
            Step::Failed(Failure::NoFileName)
        } else {
            Step::Probe(0)
        },
        Step::Probe(k) => if !yes {
            Step::Rename(k)
        } else if k + 1 < TRIED {
            Step::Probe((k + 1) as u32)
        } else {
            Step::Rename(TRIED)
        },
        Step::Rename(k) => if yes {
            Step::Done(k)
        } else {
            Step::Copy(k)
        },
        Step::Copy(k) => if yes {
            Step::RemoveOriginal(k)
        } else {
            Step::Failed(Failure::NotMoved)
        },
        Step::RemoveOriginal(k) => if yes {
            Step::Done(k)
        } else {
            Step::Failed(Failure::NotRemoved)
        },
        Step::Done(k) => Step::Done(k),
        Step::Failed(f) => Step::Failed(f),
    }
}

/// Begins to move a file into a directory.
pub fn move_to_dir(directory_exists: bool, has_name: bool) -> (r: Step)
    ensures
        r == first_step(directory_exists, has_name),
{
    if !directory_exists {
        Step::MakeDirectory
    } else if !has_name {
        Step::Failed(Failure::NoFileName)
    } else {
        Step::Probe(0)
    }
}

/// Goes on with moving a file: what follows `step`, by what came of it.
pub fn move_on(step: Step, yes: bool, has_name: bool) -> (r: Step)
    ensures
        r == step_after(step, yes, has_name),
{
    match step {
        Step::MakeDirectory => if !yes {
            Step::Failed(Failure::NoDirectory)
        } else {
            move_to_dir(true, has_name)
        },
        Step::Probe(k) => if !yes {
            Step::Rename(k)
        } else if k < TRIED - 1 {
            Step::Probe(k + 1)
        } else {
            Step::Rename(TRIED)
        },
        Step::Rename(k) => if yes {
            Step::Done(k)
        } else {
            Step::Copy(k)
        },
        Step::Copy(k) => if yes {
            Step::RemoveOriginal(k)
        } else {
            Step::Failed(Failure::NotMoved)
        },
        Step::RemoveOriginal(k) => if yes {
            Step::Done(k)
        } else {
            Step::Failed(Failure::NotRemoved)
        },
        Step::Done(k) => Step::Done(k),
        Step::Failed(f) => Step::Failed(f),
    }
}

/// The first name from number `k` on that is not taken; after the last number,
/// the one that is not looked up any more.
pub open spec fn first_free(taken: spec_fn(u32) -> bool, k: u32) -> u32
    decreases TRIED - k,
{
    if k >= TRIED || !taken(k) {
        k
    } else {
        first_free(taken, (k + 1) as u32)
    }
}

/// The step that is reached from `step` when every name that is looked up is
/// taken as `taken` says, and no file has been touched yet.
pub open spec fn after_probing(step: Step, taken: spec_fn(u32) -> bool) -> Step
    decreases
            match step {
                Step::Probe(k) => TRIED - k + 1,
                _ => 0,
            },
{
    match step {
        Step::Probe(k) => if k < TRIED {
            after_probing(step_after(step, taken(k), true), taken)
        } else {
            step
        },
        _ => step,
    }
}

/// The file gets the first name that is not taken: its own, or the lowest
/// number, or the time of day when all are taken.
pub proof fn first_free_name_is_used(taken: spec_fn(u32) -> bool, k: u32)
    requires
        k < TRIED,
    ensures
        after_probing(Step::Probe(k), taken) == Step::Rename(first_free(taken, k)),
        k <= first_free(taken, k) <= TRIED,
        first_free(taken, k) < TRIED ==> !taken(first_free(taken, k)),
        forall|j: u32| k <= j < first_free(taken, k) ==> #[trigger] taken(j),
    decreases TRIED - k,
{
    reveal_with_fuel(after_probing, 2);
    if taken(k) {
        if k + 1 < TRIED {
            first_free_name_is_used(taken, (k + 1) as u32);
        } else {
            assert(first_free(taken, (k + 1) as u32) == TRIED);
        }
    }
}

/// Once the file is moved or has failed to move, nothing follows.
pub proof fn ends_are_final(step: Step, yes: bool, has_name: bool)
    requires
        step is Done || step is Failed,
    ensures
        step_after(step, yes, has_name) == step,
{
}

/// The original is removed only after it was copied.
pub proof fn removal_follows_copy(step: Step, yes: bool, has_name: bool, k: u32)
    requires
        step_after(step, yes, has_name) == Step::RemoveOriginal(k),
    ensures
        step == Step::Copy(k) && yes,
{
}

/// The file counts as moved only if it was renamed, or copied and removed where
/// it was.
pub proof fn moved_means_renamed_or_removed(step: Step, yes: bool, has_name: bool, k: u32)
    requires
        step_after(step, yes, has_name) == Step::Done(k),
        step !is Done,
    ensures
        yes,
        step == Step::Rename(k) || step == Step::RemoveOriginal(k),
{
}

/// A name with a number before the extension.
pub open spec fn numbered(name: Seq<char>, n: nat) -> Seq<char> {
    let stem = match stem_of(name) {
        Some(t) => t,
        None => "file"@,
    };
    let ext = match extension_of(name) {
        Some(e) => "."@ + e,
        None => Seq::empty(),
    };
    stem + " ("@ + decimal(n) + ")"@ + ext
}

/// Name number `k` for a file called `name`: its own, then numbered ones, then
/// one with the seconds since 1970.
pub open spec fn candidate(name: Seq<char>, k: u32, seconds: u64) -> Seq<char> {
    if k == 0 {
        name
    } else if k < TRIED {
        numbered(name, k as nat)
    } else {
        numbered(name, seconds as nat)
    }
}

proof fn lemma_digits(n: nat)
    ensures
        decimal(n).len() > 0,
        forall|k: int| 0 <= k < decimal(n).len() ==> !is_slash(#[trigger] decimal(n)[k]),
    decreases n,
{
    if n >= 10 {
        lemma_digits(n / 10);
    }
}

proof fn lemma_numbered(name: Seq<char>, n: nat)
    requires
        file_name_of(name) is Some,
    ensures
        numbered(name, n).len() > file_name_of(name)->0.len() + 2,
        forall|k: int|
            0 <= k < numbered(name, n).len() ==> !is_separator(
                #[trigger] numbered(name, n)[k],
                is_verbatim(name),
            ),
{
    reveal_strlit(" (");
    reveal_strlit(")");
    reveal_strlit(".");
    name_is_stem_and_extension(name);
    names_hold_no_separator(name);
    lemma_digits(n);
    let whole = file_name_of(name)->0;
    let stem = stem_of(name)->0;
    let d = decimal(n);
    let b = numbered(name, n);
    assert forall|k: int| 0 <= k < b.len() implies !is_separator(
        #[trigger] b[k],
        is_verbatim(name),
    ) by {
        if k < stem.len() {
            assert(b[k] == whole[k]);
        } else if stem.len() + 2 <= k < stem.len() + 2 + d.len() {
            assert(b[k] == d[k - stem.len() - 2]);
            assert(!is_slash(d[k - stem.len() - 2]));
        } else if k > stem.len() + 3 + d.len() {
            assert(b[k] == whole[k - 3 - d.len()]);
        }
    }
}

/// No two of the names that are looked up are the same.
pub proof fn candidates_differ(name: Seq<char>, i: u32, j: u32, seconds: u64)
    requires
        i < j < TRIED,
        file_name_of(name) is Some,
    ensures
        candidate(name, i, seconds) != candidate(name, j, seconds),
{
    reveal_strlit(" (");
    reveal_strlit(")");
    let at = stem_of(name)->0.len() + 2;
    let a = candidate(name, i, seconds);
    let b = candidate(name, j, seconds);
    let e = decimal(j as nat);
    lemma_numbered(name, j as nat);
    if a == b && i > 0 {
        let d = decimal(i as nat);
        assert(d.len() == e.len());
        assert(a.subrange(at as int, (at + d.len()) as int) == d);
        assert(b.subrange(at as int, (at + d.len()) as int) == e);
        decimal_is_injective(i as nat, j as nat);
    } else if a == b {
        assert(!is_verbatim(name)) by {
            if is_verbatim(name) {
                assert(is_separator(b[0], true));
            }
        }
        assert forall|k: int| 0 <= k < name.len() implies !is_slash(#[trigger] name[k]) by {
            assert(!is_separator(b[k], false));
        }
        plain_name_is_itself(name);
    }
}

/// A file that is to be moved and the directory that it goes to: what the file
/// holds, while it is there, and what the directory's files hold, by their names.
pub struct Place {
    pub source: Option<int>,
    pub files: Map<Seq<char>, int>,
}

impl Place {
    /// Every file that was in the directory is there and holds what it did.
    pub open spec fn keeps(self, before: Place) -> bool {
        forall|n: Seq<char>| #[trigger]
            before.files.contains_key(n) ==> self.files.contains_key(n) && self.files[n]
                == before.files[n]
    }
}

/// What carrying out a step for a file called `name` makes of a place, and
/// whether it went well.  Where a copy fails, part of it may be left; where the
/// original cannot be removed, the copy may be taken back.
pub open spec fn carried_out(
    step: Step,
    yes: bool,
    before: Place,
    after: Place,
    name: Seq<char>,
    seconds: u64,
) -> bool {
    match step {
        Step::Probe(k) => after == before && yes == before.files.contains_key(
            candidate(name, k, seconds),
        ),
        Step::Rename(k) => if yes {
            &&& before.source is Some
            &&& after == (Place {
                source: None,
                files: before.files.insert(candidate(name, k, seconds), before.source->0),
            })
        } else {
            after == before
        },
        Step::Copy(k) => if yes {
            &&& before.source is Some
            &&& after == (Place {
                files: before.files.insert(candidate(name, k, seconds), before.source->0),
                ..before
            })
        } else {
            &&& after.source == before.source
            &&& after.files.remove(candidate(name, k, seconds)) == before.files.remove(
                candidate(name, k, seconds),
            )
        },
        Step::RemoveOriginal(k) => if yes {
            after == (Place { source: None, ..before })
        } else {
            ||| after == before
            ||| after == (Place {
                files: before.files.remove(candidate(name, k, seconds)),
                ..before
            })
        },
        Step::MakeDirectory | Step::Done(_) | Step::Failed(_) => after == before,
    }
}

/// `b` follows `a`: a step is carried out, and what follows it comes next.
pub open spec fn goes_on(
    a: (Step, Place),
    b: (Step, Place),
    name: Seq<char>,
    seconds: u64,
) -> bool {
    exists|yes: bool| #[trigger]
        carried_out(a.0, yes, a.1, b.1, name, seconds) && b.0 == step_after(a.0, yes, true)
}

/// The steps of moving a file called `name`, each with the place before it.
pub open spec fn is_run(
    run: Seq<(Step, Place)>,
    directory_exists: bool,
    name: Seq<char>,
    seconds: u64,
) -> bool {
    &&& run.len() > 0
    &&& run[0].0 == first_step(directory_exists, true)
    &&& forall|i: int| 0 <= i < run.len() - 1 ==> goes_on(#[trigger] run[i], run[i + 1], name, seconds)
}

/// What holds while a file is moved, which began at `start`: name number `k` is
/// used only if it is free, or all are taken.
spec fn under_way(step: Step, start: Place, now: Place, name: Seq<char>, seconds: u64) -> bool {
    match step {
        Step::MakeDirectory => now == start,
        Step::Probe(k) => now == start && k < TRIED && forall|j: u32|
            j < k ==> start.files.contains_key(#[trigger] candidate(name, j, seconds)),
        Step::Rename(k) | Step::Copy(k) => now == start && chosen(k, start, name, seconds),
        Step::RemoveOriginal(k) => chosen(k, start, name, seconds) && now == (Place {
            files: start.files.insert(candidate(name, k, seconds), start.source->0),
            ..start
        }),
        Step::Done(k) => chosen(k, start, name, seconds) && now == (Place {
            source: None,
            files: start.files.insert(candidate(name, k, seconds), start.source->0),
        }),
        Step::Failed(_) => now.source == start.source && (now.keeps(start) || chosen(
            TRIED,
            start,
            name,
            seconds,
        )),
    }
}

spec fn chosen(k: u32, start: Place, name: Seq<char>, seconds: u64) -> bool {
    if k < TRIED {
        !start.files.contains_key(candidate(name, k, seconds))
    } else {
        k == TRIED && forall|j: u32|
            j < TRIED ==> start.files.contains_key(#[trigger] candidate(name, j, seconds))
    }
}

proof fn lemma_under_way(
    a: (Step, Place),
    b: (Step, Place),
    start: Place,
    name: Seq<char>,
    seconds: u64,
)
    requires
        start.source is Some,
        under_way(a.0, start, a.1, name, seconds),
        goes_on(a, b, name, seconds),
    ensures
        under_way(b.0, start, b.1, name, seconds),
{
    let yes = choose|yes: bool| #[trigger]
        carried_out(a.0, yes, a.1, b.1, name, seconds) && b.0 == step_after(a.0, yes, true);
    match a.0 {
        Step::Probe(k) => {
            if yes {
                assert forall|j: u32| j < k + 1 implies start.files.contains_key(
                    #[trigger] candidate(name, j, seconds),
                ) by {
                    assert(j < k || j == k);
                }
            }
        },
        Step::Copy(k) => {
            if !yes && k < TRIED {
                let c = candidate(name, k, seconds);
                assert forall|n: Seq<char>| #[trigger]
                    start.files.contains_key(n) implies b.1.files.contains_key(n) && b.1.files[n]
                    == start.files[n] by {
                    assert(start.files.remove(c).contains_key(n));
                    assert(b.1.files.remove(c).contains_key(n));
                    assert(b.1.files.remove(c)[n] == start.files.remove(c)[n]);
                }
            }
        },
        _ => {},
    }
}

proof fn lemma_run(
    run: Seq<(Step, Place)>,
    directory_exists: bool,
    name: Seq<char>,
    seconds: u64,
    i: int,
)
    requires
        is_run(run, directory_exists, name, seconds),
        run[0].1.source is Some,
        0 <= i < run.len(),
    ensures
        under_way(run[i].0, run[0].1, run[i].1, name, seconds),
    decreases i,
{
    if i > 0 {
        lemma_run(run, directory_exists, name, seconds, i - 1);
        assert(goes_on(run[i - 1], run[i - 1 + 1], name, seconds));
        lemma_under_way(run[i - 1], run[i], run[0].1, name, seconds);
    }
}

/// However the steps come out, and as long as one of the names that are looked
/// up is free: a file that counts as moved lies in the directory, under a name
/// that was free, holding what it held, and nowhere else; one that does not is
/// still where it was.  No file that was in the directory is lost or changed.
pub proof fn file_is_moved_or_stays(
    run: Seq<(Step, Place)>,
    directory_exists: bool,
    name: Seq<char>,
    seconds: u64,
    free: u32,
)
    requires
        is_run(run, directory_exists, name, seconds),
        run[0].1.source is Some,
        free < TRIED,
        !run[0].1.files.contains_key(candidate(name, free, seconds)),
    ensures
        run.last().1.keeps(run[0].1),
        run.last().0 matches Step::Done(k) ==> {
            let c = candidate(name, k, seconds);
            &&& k < TRIED
            &&& !run[0].1.files.contains_key(c)
            &&& run.last().1.files == run[0].1.files.insert(c, run[0].1.source->0)
            &&& run.last().1.source is None
        },
        run.last().0 is Failed ==> run.last().1.source == run[0].1.source,
{
    lemma_run(run, directory_exists, name, seconds, run.len() - 1);
}

/// Name number `k` for a file called `name`.
pub fn unique_dest(name: &str, k: u32, seconds: u64) -> (r: String)
    ensures
        r@ == candidate(name@, k, seconds),
{
    if k == 0 {
        return name.to_owned();
    }
    let mut r: String = match file_stem(name) {
        Some(t) => t,
        None => "file".to_owned(),
    };
    r.append(" (");
    append_decimal(
        &mut r,
        if k < TRIED {
            k as u64
        } else {
            seconds
        },
    );
    r.append(")");
    match extension(name) {
        Some(e) => {
            r.append(".");
            r.append(e.as_str());
        },
        None => {},
    }
    assert(r@ == candidate(name@, k, seconds));
    r
}

/// What is reported of a failure, `first` and `second` being what the system
/// said: why the directory was not made; or why the file was not renamed, and why
/// not copied, or not removed after that.
pub open spec fn report(f: Failure, first: Seq<char>, second: Seq<char>) -> Seq<char> {
    match f {
        Failure::NoDirectory => first,
        Failure::NoFileName => "no file name"@,
        Failure::NotMoved => "rename: "@ + first + "; copy: "@ + second,
        Failure::NotRemoved => "rename: "@ + first + "; remove: "@ + second,
    }
}

/// What is reported of a failure.
pub fn failure_message(f: Failure, first: &str, second: &str) -> (r: String)
    ensures
        r@ == report(f, first@, second@),
{
    match f {
        Failure::NoDirectory => first.to_owned(),
        Failure::NoFileName => "no file name".to_owned(),
        Failure::NotMoved => {
            let mut r: String = "rename: ".to_owned();
            r.append(first);
            r.append("; copy: ");
            r.append(second);
            r
        },
        Failure::NotRemoved => {
            let mut r: String = "rename: ".to_owned();
            r.append(first);
            r.append("; remove: ");
            r.append(second);
            r
        },
    }
}

/// What comes first is the directory, then the name: without the directory it is
/// made, and once it is there things go on as if it had been; without a name
/// nothing is tried.
pub proof fn directory_comes_before_the_name(has_name: bool)
    ensures
        first_step(false, has_name) == Step::MakeDirectory,
        first_step(true, true) == Step::Probe(0),
        first_step(true, false) == Step::Failed(Failure::NoFileName),
        step_after(Step::MakeDirectory, true, has_name) == first_step(true, has_name),
        step_after(Step::MakeDirectory, false, has_name) == Step::Failed(Failure::NoDirectory),
{
}

/// A name that is free is used at once; of those that are taken the next one is
/// looked up, the file's own and the numbers up to 999, and after those one is
/// used without looking.
pub proof fn names_are_looked_up_in_turn(k: u32, has_name: bool)
    requires
        k < 1000,
    ensures
        step_after(Step::Probe(k), false, has_name) == Step::Rename(k),
        k < 999 ==> (step_after(Step::Probe(k), true, has_name) matches Step::Probe(j) && j == k
            + 1),
        k == 999 ==> step_after(Step::Probe(k), true, has_name) == Step::Rename(1000),
{
}

/// What cannot be done one way is done the other, under the same name: a file
/// that cannot be renamed is copied, and one that was copied is removed where it
/// was; only if it can neither be renamed nor copied, or not be removed, it has
/// not been moved.
pub proof fn no_way_is_left_out(k: u32, has_name: bool)
    ensures
        step_after(Step::Rename(k), true, has_name) == Step::Done(k),
        step_after(Step::Rename(k), false, has_name) == Step::Copy(k),
        step_after(Step::Copy(k), true, has_name) == Step::RemoveOriginal(k),
        step_after(Step::Copy(k), false, has_name) == Step::Failed(Failure::NotMoved),
        step_after(Step::RemoveOriginal(k), true, has_name) == Step::Done(k),
        step_after(Step::RemoveOriginal(k), false, has_name) == Step::Failed(Failure::NotRemoved),
{
}

/// Each failure has its cause: no directory, no name, a copy that failed, an
/// original that is still there; what was under way does not fail otherwise.
pub proof fn failures_have_their_cause(step: Step, yes: bool, has_name: bool, f: Failure)
    requires
        step_after(step, yes, has_name) == Step::Failed(f),
        step !is Failed,
    ensures
        f == Failure::NoDirectory ==> step is MakeDirectory && !yes,
        f == Failure::NoFileName ==> step is MakeDirectory && yes && !has_name,
        f == Failure::NotMoved ==> step is Copy && !yes,
        f == Failure::NotRemoved ==> step is RemoveOriginal && !yes,
{
}

/// The number goes between the stem and the extension, in round brackets behind
/// a space, and the extension stays as it is, however long it is.
pub proof fn number_goes_before_the_extension(stem: Seq<char>, ext: Seq<char>, n: nat)
    requires
        stem.len() > 0,
        is_plain(stem),
        is_plain(ext),
        forall|k: int| 0 <= k < ext.len() ==> ext[k] != '.',
        !(stem == seq!['.'] && ext.len() == 0),
    ensures
        numbered(stem.push('.') + ext, n) == stem + seq![' ', '('] + decimal(n) + seq![')', '.']
            + ext,
{
    reveal_strlit(" (");
    reveal_strlit(")");
    reveal_strlit(".");
    name_is_cut_at_its_last_dot(stem, ext);
    assert(" ("@ == seq![' ', '(']);
    assert(numbered(stem.push('.') + ext, n) == stem + seq![' ', '('] + decimal(n) + seq![')', '.']
        + ext);
}

/// A name without an extension gets the number at its end.
pub proof fn number_goes_to_the_end(name: Seq<char>, n: nat)
    requires
        name.len() > 0,
        is_plain(name),
        name != seq!['.'],
        forall|k: int| 1 <= k < name.len() ==> name[k] != '.',
    ensures
        numbered(name, n) == name + seq![' ', '('] + decimal(n) + seq![')'],
{
    reveal_strlit(" (");
    reveal_strlit(")");
    name_without_an_inner_dot_is_all_stem(name);
    assert(" ("@ == seq![' ', '(']);
    assert(numbered(name, n) == name + seq![' ', '('] + decimal(n) + seq![')']);
}

/// The first name is the file's own, those up to number 999 hold their number,
/// and the one after them the time; the time does not matter before that.
pub proof fn candidates_hold_their_number(name: Seq<char>, k: u32, seconds: u64, later: u64)
    ensures
        candidate(name, 0, seconds) == name,
        1 <= k <= 999 ==> candidate(name, k, seconds) == numbered(name, k as nat),
        k <= 999 ==> candidate(name, k, seconds) == candidate(name, k, later),
        k >= 1000 ==> candidate(name, k, seconds) == numbered(name, seconds as nat),
{
}

/// What is reported ends with what the system said last, and tells apart whether
/// the file was not copied or not removed; of a directory that could not be made
/// it is just what the system said.
pub proof fn reports_tell_what_went_wrong(first: Seq<char>, second: Seq<char>)
    ensures
        report(Failure::NoDirectory, first, second) == first,
        report(Failure::NoFileName, first, second) == "no file name"@,
        report(Failure::NotMoved, first, second) == "rename: "@ + first + ("; copy: "@ + second),
        report(Failure::NotRemoved, first, second) == "rename: "@ + first + ("; remove: "@
            + second),
{
    assert("rename: "@ + first + "; copy: "@ + second == "rename: "@ + first + ("; copy: "@
        + second));
    assert("rename: "@ + first + "; remove: "@ + second == "rename: "@ + first + ("; remove: "@
        + second));
}

/// Where a path has no name of its own, the number goes behind a stand-in.
pub proof fn nameless_paths_get_a_stand_in(name: Seq<char>, n: nat)
    requires
        file_name_of(name) is None,
    ensures
        numbered(name, n) == seq!['f', 'i', 'l', 'e', ' ', '('] + decimal(n) + seq![')'],
{
    reveal_strlit("file");
    reveal_strlit(" (");
    reveal_strlit(")");
    assert(numbered(name, n) == seq!['f', 'i', 'l', 'e', ' ', '('] + decimal(n) + seq![')']);
}

} // verus!
