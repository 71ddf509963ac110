//! Sweeping the desktop: files go where the rule for their extension says, and
//! those that could not be moved are tried again.

use crate::config::SweepRule;
use crate::path::{
    extension, extension_of, file_name_of, is_plain, last_dot, name_is_cut_at_its_last_dot,
    name_is_stem_and_extension, name_without_an_inner_dot_is_all_stem, Location, LocationView,
};
use crate::text::{ascii_lower, ascii_lowercase, lowercase, texts};
use vstd::prelude::*;
use vstd::utf8::is_ascii_chars;

verus! {

/// An extension with its dot; empty if there is none.
pub open spec fn dotted_text(ext: Option<Seq<char>>) -> Seq<char> {
    match ext {
        Some(e) => "."@ + e,
        None => Seq::empty(),
    }
}

/// A file's extension in lower case with its dot; empty if it has none.
pub open spec fn ext_text(name: Seq<char>) -> Seq<char> {
    dotted_text(
        match extension_of(name) {
            Some(e) => Some(lowercase(e)),
            None => None,
        },
    )
}

/// The number of the first text from number `i` on that is `ext`.
pub open spec fn first_equal(exts: Seq<Seq<char>>, ext: Seq<char>, i: nat) -> Option<usize>
    decreases exts.len() - i,
{
    if i >= exts.len() {
        None
    } else if exts[i as int] == ext {
        Some(i as usize)
    } else {
        first_equal(exts, ext, i + 1)
    }
}

/// The extensions of rules in lower case.
pub open spec fn lowered(rules: Seq<SweepRule>) -> Seq<Seq<char>> {
    rules.map_values(|r: SweepRule| lowercase(r.ext@))
}

/// The number of the first rule that is for files called `name`: their
/// extensions agree but for case.
pub open spec fn first_rule(rules: Seq<SweepRule>, name: Seq<char>) -> Option<usize> {
    first_equal(lowered(rules), ext_text(name), 0)
}

/// A file's extension, if it is ASCII text, in lower case with its dot.
pub open spec fn ascii_ext_text(name: Seq<char>) -> Seq<char> {
    dotted_text(
        match extension_of(name) {
            Some(e) => Some(ascii_lowercase(e)),
            None => None,
        },
    )
}

/// The file's extension is ASCII text, if it has one.
pub open spec fn has_ascii_ext(name: Seq<char>) -> bool {
    extension_of(name) matches Some(e) ==> is_ascii_chars(e)
}

/// The number of the first rule that is for files called `name`, where all
/// extensions are ASCII text: they agree but for the case of their letters.
pub open spec fn first_ascii_rule(rules: Seq<SweepRule>, name: Seq<char>) -> Option<usize> {
    first_equal(
        rules.map_values(|r: SweepRule| ascii_lowercase(r.ext@)),
        ascii_ext_text(name),
        0,
    )
}

/// The extensions of the rules are ASCII text.
pub open spec fn ascii_rules(rules: Seq<SweepRule>) -> bool {
    forall|i: int| 0 <= i < rules.len() ==> is_ascii_chars((#[trigger] rules[i]).ext@)
}

/// An extension with its dot; empty if there is none.
pub fn dotted(ext: Option<String>) -> (r: String)
    ensures
        r@ == dotted_text(crate::config::text_of(ext)),
{
    match ext {
        Some(e) => {
            let mut r: String = ".".to_owned();
            r.append(e.as_str());
            r
        },
        None => String::new(),
    }
}

/// A file's extension in lower case with its dot; empty if it has none.
pub fn ext_of(file_name: &str) -> (r: String)
    ensures
        r@ == ext_text(file_name@),
        has_ascii_ext(file_name@) ==> r@ == ascii_ext_text(file_name@),
{
    match extension(file_name) {
        Some(e) => dotted(Some(e.as_str().to_lowercase())),
        None => dotted(None),
    }
}

/// What an extension comes to: nothing if there is none, else it begins with a
/// dot.
pub proof fn ext_begins_with_a_dot(name: Seq<char>)
    ensures
        ext_text(name).len() == 0 <==> extension_of(name) is None,
        ext_text(name).len() > 0 ==> ext_text(name)[0] == '.',
{
    reveal_strlit(".");
}

/// The texts differ only in the case of ASCII letters.
pub open spec fn alike(a: Seq<char>, b: Seq<char>) -> bool {
    a.len() == b.len() && forall|k: int|
        0 <= k < a.len() ==> ascii_lower(#[trigger] a[k]) == ascii_lower(b[k])
}

/// Neither path ends in a name, or both do and the names differ only in the case
/// of ASCII letters.
pub open spec fn names_alike(a: Seq<char>, b: Seq<char>) -> bool {
    match (file_name_of(a), file_name_of(b)) {
        (Some(m), Some(n)) => alike(m, n),
        (None, None) => true,
        _ => false,
    }
}

proof fn lemma_alike_dots(a: Seq<char>, b: Seq<char>)
    requires
        alike(a, b),
    ensures
        last_dot(a) == last_dot(b),
        -1 <= last_dot(a) < a.len(),
    decreases a.len(),
{
    if a.len() > 0 {
        assert(ascii_lower(a[a.len() - 1]) == ascii_lower(b[b.len() - 1]));
        lemma_alike_dots(a.drop_last(), b.drop_last());
    }
}

/// Paths whose names differ only in the case of ASCII letters come to the same
/// extension, if it is ASCII text, or differs in nothing; if it is ASCII text, it
/// holds no further dot, and has no capital letter any more.
pub proof fn case_does_not_matter(a: Seq<char>, b: Seq<char>)
    requires
        names_alike(a, b),
    ensures
        extension_of(a) is Some <==> extension_of(b) is Some,
        extension_of(a) == extension_of(b) ==> ext_text(a) == ext_text(b),
        has_ascii_ext(a) == has_ascii_ext(b),
        ascii_ext_text(a) == ascii_ext_text(b),
        has_ascii_ext(a) ==> is_ascii_chars(ascii_ext_text(a)),
        forall|k: int| 1 <= k < ascii_ext_text(a).len() ==> #[trigger] ascii_ext_text(a)[k] != '.',
        ascii_lowercase(ascii_ext_text(a)) == ascii_ext_text(a),
{
    reveal_strlit(".");
    if file_name_of(a) is Some {
        lemma_alike_dots(file_name_of(a)->0, file_name_of(b)->0);
    }
    if extension_of(a) is Some {
        name_is_stem_and_extension(a);
        let e = extension_of(a)->0;
        let f = extension_of(b)->0;
        assert(alike(e, f));
        assert(ascii_lowercase(e) == ascii_lowercase(f));
        assert(is_ascii_chars(e) == is_ascii_chars(f)) by {
            if is_ascii_chars(e) {
                assert forall|k: int| 0 <= k < f.len() implies '\0' <= #[trigger] f[k]
                    <= '\u{7f}' by {
                    assert(ascii_lower(e[k]) == ascii_lower(f[k]));
                }
            }
            if is_ascii_chars(f) {
                assert forall|k: int| 0 <= k < e.len() implies '\0' <= #[trigger] e[k]
                    <= '\u{7f}' by {
                    assert(ascii_lower(e[k]) == ascii_lower(f[k]));
                }
            }
        }
        let t = ascii_ext_text(a);
        assert forall|k: int| 1 <= k < t.len() implies #[trigger] t[k] == ascii_lower(e[k - 1])
            && t[k] != '.' by {
            assert(e[k - 1] != '.');
        }
        if is_ascii_chars(e) {
            assert forall|k: int| 0 <= k < t.len() implies '\0' <= #[trigger] t[k] <= '\u{7f}' by {
                if k > 0 {
                    assert('\0' <= e[k - 1] <= '\u{7f}');
                }
            }
        }
    }
    assert(ascii_lowercase(ascii_ext_text(a)) == ascii_ext_text(a));
}

/// The number of the first text that is `ext`.
pub fn position_of(exts: &Vec<String>, ext: &String) -> (r: Option<usize>)
    ensures
        r == first_equal(texts(exts@), ext@, 0),
{
    let mut i: usize = 0;
    while i < exts.len()
        invariant
            i <= exts@.len(),
            first_equal(texts(exts@), ext@, 0) == first_equal(texts(exts@), ext@, i as nat),
        decreases exts@.len() - i,
    {
        if exts[i] == *ext {
            return Some(i);
        }
        i += 1;
    }
    None
}

/// The rule that is for files called `file_name`: the first one.
pub fn rule_for(rules: &Vec<SweepRule>, file_name: &str) -> (r: Option<usize>)
    ensures
        r == first_rule(rules@, file_name@),
        ascii_rules(rules@) && has_ascii_ext(file_name@) ==> r == first_ascii_rule(
            rules@,
            file_name@,
        ),
{
    let mut exts: Vec<String> = Vec::new();
    let mut i: usize = 0;
    while i < rules.len()
        invariant
            i <= rules@.len(),
            exts@.len() == i,
            forall|k: int| 0 <= k < i ==> (#[trigger] exts@[k])@ == lowercase(rules@[k].ext@),
            forall|k: int|
                0 <= k < i && is_ascii_chars(rules@[k].ext@) ==> (#[trigger] exts@[k])@
                    == ascii_lowercase(rules@[k].ext@),
        decreases rules@.len() - i,
    {
        exts.push(rules[i].ext.as_str().to_lowercase());
        i += 1;
    }
    assert(texts(exts@) == lowered(rules@));
    proof {
        if ascii_rules(rules@) {
            assert forall|k: int| 0 <= k < rules@.len() implies (#[trigger] exts@[k])@
                == ascii_lowercase(rules@[k].ext@) by {
                assert(is_ascii_chars(rules@[k].ext@));
            }
            assert(texts(exts@) == rules@.map_values(|r: SweepRule| ascii_lowercase(r.ext@)));
        }
    }
    position_of(&exts, &ext_of(file_name))
}

/// What becomes of an entry of the desktop: if it is a file, the rule for it
/// says where it goes.
pub fn sweep_desktop(rules: &Vec<SweepRule>, file_name: &str, is_file: bool) -> (r: Option<usize>)
    ensures
        r == if is_file {
            first_rule(rules@, file_name@)
        } else {
            None
        },
        is_file && ascii_rules(rules@) && has_ascii_ext(file_name@) ==> r == first_ascii_rule(
            rules@,
            file_name@,
        ),
{
    if is_file {
        rule_for(rules, file_name)
    } else {
        None
    }
}

/// Whether any of the files that have come calls for a sweep.
pub fn calls_for_sweep(rules: &Vec<SweepRule>, names: &Vec<String>) -> (r: bool)
    ensures
        r == exists|i: int|
            0 <= i < names@.len() && first_rule(rules@, #[trigger] texts(names@)[i]) is Some,
{
    if rules.len() == 0 {
        return false;
    }
    let mut i: usize = 0;
    while i < names.len()
        invariant
            i <= names@.len(),
            forall|k: int|
                0 <= k < i ==> first_rule(rules@, #[trigger] texts(names@)[k]) is None,
        decreases names@.len() - i,
    {
        assert(texts(names@)[i as int] == names@[i as int]@);
        if rule_for(rules, names[i].as_str()).is_some() {
            return true;
        }
        i += 1;
    }
    false
}

/// The rule that is found is for the file, and no earlier one is; where none is
/// found, none is for it.
pub proof fn first_rule_is_the_first(rules: Seq<SweepRule>, name: Seq<char>)
    requires
        rules.len() <= usize::MAX,
    ensures
        match first_rule(rules, name) {
            Some(k) => {
                &&& k < rules.len()
                &&& lowercase(rules[k as int].ext@) == ext_text(name)
                &&& forall|j: int|
                    0 <= j < k ==> lowercase((#[trigger] rules[j]).ext@) != ext_text(name)
            },
            None => forall|j: int|
                0 <= j < rules.len() ==> lowercase((#[trigger] rules[j]).ext@) != ext_text(name),
        },
{
    let exts = lowered(rules);
    lemma_first_equal(exts, ext_text(name), 0);
    assert forall|j: int| 0 <= j < rules.len() implies exts[j] == lowercase(
        (#[trigger] rules[j]).ext@,
    ) by {}
}

proof fn lemma_first_equal(exts: Seq<Seq<char>>, ext: Seq<char>, i: nat)
    requires
        exts.len() <= usize::MAX,
    ensures
        match first_equal(exts, ext, i) {
            Some(k) => {
                &&& i <= k < exts.len()
                &&& exts[k as int] == ext
                &&& forall|j: int| i <= j < k ==> #[trigger] exts[j] != ext
            },
            None => forall|j: int| i <= j < exts.len() ==> #[trigger] exts[j] != ext,
        },
    decreases exts.len() - i,
{
    if i < exts.len() && exts[i as int] != ext {
        lemma_first_equal(exts, ext, i + 1);
    }
}

/// A file that is to be moved, and where to.
pub struct Errand {
    pub src: Location,
    pub dest: Location,
}

/// What came of trying an errand again.
#[derive(Clone, Copy, PartialEq, Eq, Structural, Debug)]
pub enum Outcome {
    /// The file is not there any more.
    Gone,
    /// The file was moved.
    Moved,
    /// The file could not be moved.
    Failed,
}

/// What an errand is: from where to where.
pub open spec fn errands(v: Seq<Errand>) -> Seq<(LocationView, LocationView)> {
    v.map_values(|e: Errand| (e.src@, e.dest@))
}

/// The errands that failed, in their order.
pub open spec fn failed(
    list: Seq<(LocationView, LocationView)>,
    outcomes: Seq<Outcome>,
) -> Seq<(LocationView, LocationView)>
    decreases list.len(),
{
    if list.len() == 0 {
        Seq::empty()
    } else {
        let rest = failed(list.drop_last(), outcomes);
        if outcomes[list.len() - 1] == Outcome::Failed {
            rest.push(list.last())
        } else {
            rest
        }
    }
}

/// Notes a file that could not be moved, to try it again.
pub fn retry_later(list: &mut Vec<Errand>, src: Location, dest: Location)
    ensures
        errands(final(list)@) == errands(old(list)@).push((src@, dest@)),
{
    list.push(Errand { src, dest });
    assert(errands(list@) == errands(old(list)@).push((src@, dest@)));
}

/// After all errands were tried again, keeps those that failed once more.
pub fn sweep_retry_tick(list: &mut Vec<Errand>, outcomes: &Vec<Outcome>)
    requires
        outcomes@.len() == old(list)@.len(),
    ensures
        errands(final(list)@) == failed(errands(old(list)@), outcomes@),
{
    let ghost all = errands(list@);
    let mut kept: Vec<Errand> = Vec::new();
    let mut i: usize = 0;
    assert(errands(kept@) == Seq::<(LocationView, LocationView)>::empty());
    while i < list.len()
        invariant
            i <= list@.len(),
            list@.len() == all.len(),
            errands(list@) == all,
            outcomes@.len() == all.len(),
            errands(kept@) == failed(all.take(i as int), outcomes@),
        decreases list@.len() - i,
    {
        let ghost before = kept@;
        if outcomes[i] == Outcome::Failed {
            kept.push(Errand { src: list[i].src.copy(), dest: list[i].dest.copy() });
            assert(errands(kept@) == errands(before).push(all[i as int]));
        }
        assert(all.take(i + 1).drop_last() == all.take(i as int));
        i += 1;
    }
    assert(all.take(all.len() as int) == all);
    *list = kept;
}

/// An errand is kept if and only if it failed.
pub proof fn failed_errands_are_kept(
    list: Seq<(LocationView, LocationView)>,
    outcomes: Seq<Outcome>,
    e: (LocationView, LocationView),
)
    requires
        outcomes.len() == list.len(),
    ensures
        failed(list, outcomes).contains(e) <==> exists|i: int|
            0 <= i < list.len() && #[trigger] outcomes[i] == Outcome::Failed && list[i] == e,
{
    lemma_failed(list, outcomes, e);
}

proof fn lemma_failed(
    list: Seq<(LocationView, LocationView)>,
    outcomes: Seq<Outcome>,
    e: (LocationView, LocationView),
)
    requires
        outcomes.len() >= list.len(),
    ensures
        failed(list, outcomes).contains(e) <==> exists|i: int|
            0 <= i < list.len() && #[trigger] outcomes[i] == Outcome::Failed && list[i] == e,
    decreases list.len(),
{
    if list.len() > 0 {
        let front = list.drop_last();
        let n = list.len() - 1;
        lemma_failed(front, outcomes, e);
        let rest = failed(front, outcomes);
        let full = failed(list, outcomes);
        if full.contains(e) {
            let j = choose|j: int| 0 <= j < full.len() && full[j] == e;
            if j < rest.len() {
                assert(rest[j] == e);
                assert(rest.contains(e));
            } else {
                assert(outcomes[n] == Outcome::Failed && list[n] == e);
            }
        }
        if exists|i: int|
            0 <= i < list.len() && #[trigger] outcomes[i] == Outcome::Failed && list[i] == e {
            let i = choose|i: int|
                0 <= i < list.len() && #[trigger] outcomes[i] == Outcome::Failed && list[i] == e;
            if i < n {
                assert(front[i] == e);
                assert(rest.contains(e));
                let j = choose|j: int| 0 <= j < rest.len() && rest[j] == e;
                assert(full[j] == e);
            } else {
                assert(full[rest.len() as int] == e);
            }
        }
    }
}

/// A file called with a stem, a dot and an extension has that extension, in
/// lower case and with its dot, however long either is.
pub proof fn ext_is_what_follows_the_last_dot(stem: Seq<char>, ext: Seq<char>)
    requires
        stem.len() > 0,
        is_plain(stem),
        is_plain(ext),
        forall|k: int| 0 <= k < ext.len() ==> ext[k] != '.',
        !(stem == seq!['.'] && ext.len() == 0),
    ensures
        ext_text(stem.push('.') + ext) == seq!['.'] + lowercase(ext),
        ascii_ext_text(stem.push('.') + ext) == seq!['.'] + ascii_lowercase(ext),
        has_ascii_ext(stem.push('.') + ext) == is_ascii_chars(ext),
{
    reveal_strlit(".");
    name_is_cut_at_its_last_dot(stem, ext);
    assert("."@ == seq!['.']);
}

/// A file whose name has no dot, or one in front and none behind it, has no
/// extension.
pub proof fn name_without_an_inner_dot_has_no_ext(name: Seq<char>)
    requires
        name.len() > 0,
        is_plain(name),
        name != seq!['.'],
        forall|k: int| 1 <= k < name.len() ==> name[k] != '.',
    ensures
        ext_text(name).len() == 0,
        ascii_ext_text(name).len() == 0,
{
    name_without_an_inner_dot_is_all_stem(name);
}

/// The rule that is found for a file with an extension is the first one whose
/// extension, dot included, differs from the file's in nothing but the case of
/// letters; where none is found there is none.
pub proof fn first_rule_of_the_extension_is_found(
    rules: Seq<SweepRule>,
    stem: Seq<char>,
    ext: Seq<char>,
)
    requires
        rules.len() <= usize::MAX,
        stem.len() > 0,
        is_plain(stem),
        is_plain(ext),
        forall|k: int| 0 <= k < ext.len() ==> ext[k] != '.',
        !(stem == seq!['.'] && ext.len() == 0),
    ensures
        match first_ascii_rule(rules, stem.push('.') + ext) {
            Some(k) => {
                &&& k < rules.len()
                &&& alike(rules[k as int].ext@, seq!['.'] + ext)
                &&& forall|j: int|
                    0 <= j < k ==> !alike((#[trigger] rules[j]).ext@, seq!['.'] + ext)
            },
            None => forall|j: int|
                0 <= j < rules.len() ==> !alike((#[trigger] rules[j]).ext@, seq!['.'] + ext),
        },
{
    ext_is_what_follows_the_last_dot(stem, ext);
    let exts = rules.map_values(|r: SweepRule| ascii_lowercase(r.ext@));
    let wanted = seq!['.'] + ext;
    assert(ascii_lowercase(wanted) == seq!['.'] + ascii_lowercase(ext));
    lemma_first_equal(exts, ascii_lowercase(wanted), 0);
    assert forall|j: int| 0 <= j < rules.len() implies (exts[j] == ascii_lowercase(wanted))
        == alike((#[trigger] rules[j]).ext@, wanted) by {
        lemma_alike(rules[j].ext@, wanted);
    }
}

proof fn lemma_alike(a: Seq<char>, b: Seq<char>)
    ensures
        alike(a, b) <==> ascii_lowercase(a) == ascii_lowercase(b),
{
    if alike(a, b) {
        assert(ascii_lowercase(a) == ascii_lowercase(b));
    }
    if ascii_lowercase(a) == ascii_lowercase(b) {
        assert(a.len() == ascii_lowercase(a).len());
        assert(b.len() == ascii_lowercase(b).len());
        assert forall|k: int| 0 <= k < a.len() implies ascii_lower(#[trigger] a[k]) == ascii_lower(
            b[k],
        ) by {
            assert(ascii_lowercase(a)[k] == ascii_lowercase(b)[k]);
        }
    }
}

/// Errands are kept in order and each by its own outcome: one more that failed
/// comes behind those that were kept before, and one more that did not changes
/// nothing.
pub proof fn errands_are_kept_in_order(
    list: Seq<(LocationView, LocationView)>,
    outcomes: Seq<Outcome>,
    e: (LocationView, LocationView),
    o: Outcome,
)
    requires
        outcomes.len() == list.len(),
    ensures
        failed(Seq::empty(), Seq::empty()).len() == 0,
        o == Outcome::Failed ==> failed(list.push(e), outcomes.push(o)) == failed(list, outcomes)
            .push(e),
        o == Outcome::Gone || o == Outcome::Moved ==> failed(list.push(e), outcomes.push(o))
            == failed(list, outcomes),
{
    assert(list.push(e).drop_last() == list);
    lemma_failed_prefix(list, outcomes, o);
}

proof fn lemma_failed_prefix(
    list: Seq<(LocationView, LocationView)>,
    outcomes: Seq<Outcome>,
    o: Outcome,
)
    requires
        outcomes.len() >= list.len(),
    ensures
        failed(list, outcomes.push(o)) == failed(list, outcomes),
    decreases list.len(),
{
    if list.len() > 0 {
        lemma_failed_prefix(list.drop_last(), outcomes, o);
    }
}

/// An errand is told by where its file is and where it goes.
pub proof fn errands_tell_both_ends(v: Seq<Errand>)
    ensures
        errands(v).len() == v.len(),
        forall|i: int|
            0 <= i < v.len() ==> errands(v)[i].0 == (#[trigger] v[i]).src@ && errands(v)[i].1
                == v[i].dest@,
{
}

} // verus!
