//! Where things are: locations below a base directory, and the parts of a
//! file name.

use vstd::prelude::*;

verus! {

/// A base directory or file and the names to follow from there, one below the
/// other.  Whoever opens it joins them the way the system does.
pub struct Location {
    pub base: String,
    pub parts: Vec<String>,
}

/// What a location is: its base and the names below it.
pub struct LocationView {
    pub base: Seq<char>,
    pub parts: Seq<Seq<char>>,
}

impl View for Location {
    type V = LocationView;

    open spec fn view(&self) -> LocationView {
        LocationView { base: self.base@, parts: crate::text::texts(self.parts@) }
    }
}

impl LocationView {
    /// What is called `name` in here.
    pub open spec fn join(self, name: Seq<char>) -> LocationView {
        LocationView { base: self.base, parts: self.parts.push(name) }
    }
}

impl Location {
    /// The location that a path names as it stands.
    pub fn at(base: String) -> (r: Location)
        ensures
            r@ == (LocationView { base: base@, parts: Seq::empty() }),
    {
        let r = Location { base, parts: Vec::new() };
        assert(crate::text::texts(r.parts@) == Seq::<Seq<char>>::empty());
        r
    }

    /// What is called `name` in here.
    pub fn join(&self, name: &str) -> (r: Location)
        ensures
            r@ == self@.join(name@),
    {
        let mut r = self.copy();
        r.parts.push(name.to_owned());
        assert(r@.parts == self@.parts.push(name@));
        r
    }

    /// The same location.
    pub fn copy(&self) -> (r: Location)
        ensures
            r@ == self@,
    {
        let mut parts: Vec<String> = Vec::new();
        let mut i: usize = 0;
        while i < self.parts.len()
            invariant
                i <= self.parts@.len(),
                parts@.len() == i,
                forall|k: int| 0 <= k < i ==> (#[trigger] parts@[k])@ == self.parts@[k]@,
            decreases self.parts@.len() - i,
        {
            parts.push(self.parts[i].clone());
            i += 1;
        }
        let r = Location { base: self.base.clone(), parts };
        assert(r@.parts == self@.parts);
        r
    }
}

/// `c` is one of the two slashes.
pub open spec fn is_slash(c: char) -> bool {
    c == '/' || c == '\\'
}

/// `c` ends a part of a path; in one that is taken `verbatim` only the backslash
/// does.
pub open spec fn is_separator(c: char, verbatim: bool) -> bool {
    c == '\\' || (c == '/' && !verbatim)
}

/// The place of the last separator, or -1.
pub open spec fn last_separator(s: Seq<char>, verbatim: bool) -> int
    decreases s.len(),
{
    if s.len() == 0 {
        -1
    } else if is_separator(s.last(), verbatim) {
        s.len() - 1
    } else {
        last_separator(s.drop_last(), verbatim)
    }
}

/// How long the part is that the path has from place `i` on, up to the next
/// separator.
pub open spec fn part_len(s: Seq<char>, i: int, verbatim: bool) -> int
    decreases s.len() - i,
{
    if i < 0 || i >= s.len() || is_separator(s[i], verbatim) {
        0
    } else {
        1 + part_len(s, i + 1, verbatim)
    }
}

/// There is the letter of a drive and a colon at place `i`.
pub open spec fn has_drive(s: Seq<char>, i: int) -> bool {
    i + 2 <= s.len() && ('a' <= s[i] <= 'z' || 'A' <= s[i] <= 'Z') && s[i + 1] == ':'
}

/// The path begins with `\\?\`: what follows is taken as it stands.
pub open spec fn is_verbatim(s: Seq<char>) -> bool {
    s.len() >= 4 && s[0] == '\\' && s[1] == '\\' && s[2] == '?' && s[3] == '\\'
}

/// How long two parts are from place `i` on, such as a server and what it
/// shares, with the separator between them; without it if the second is empty.
pub open spec fn share_len(s: Seq<char>, i: int, verbatim: bool) -> int {
    let server = part_len(s, i, verbatim);
    let share = part_len(s, i + server + 1, verbatim);
    if share > 0 {
        server + 1 + share
    } else {
        server
    }
}

/// How much of a path says where it begins: a drive, `C:`; a network share,
/// `\\server\share`; a device, `\\.\COM1`; or verbatim any of `\\?\UNC\server\share`,
/// `\\?\C:` and `\\?\part`.
pub open spec fn prefix_len(s: Seq<char>) -> int {
    if is_verbatim(s) {
        if s.len() >= 8 && s[4] == 'U' && s[5] == 'N' && s[6] == 'C' && is_slash(s[7]) {
            8 + share_len(s, 8, true)
        } else if has_drive(s, 4) && (s.len() == 6 || is_slash(s[6])) {
            6
        } else {
            4 + part_len(s, 4, true)
        }
    } else if s.len() >= 2 && is_slash(s[0]) && is_slash(s[1]) {
        if s.len() >= 4 && s[2] == '.' && is_slash(s[3]) {
            4 + part_len(s, 4, false)
        } else if part_len(s, 2, false) > 0 && share_len(s, 2, false) > part_len(s, 2, false) {
            2 + share_len(s, 2, false)
        } else {
            0
        }
    } else if has_drive(s, 0) {
        2
    } else {
        0
    }
}

/// The last part of a path, if that is a name: separators at the end do not
/// count, nor does a part that stands for the directory it is in; one that
/// stands for the directory above is no name.  In a verbatim path neither is.
pub open spec fn last_component(s: Seq<char>, verbatim: bool) -> Option<Seq<char>>
    decreases s.len(),
{
    if s.len() == 0 {
        None
    } else if is_separator(s.last(), verbatim) {
        last_component(s.drop_last(), verbatim)
    } else {
        let c = s.skip(last_separator(s, verbatim) + 1);
        if c == seq!['.'] && !verbatim {
            last_component(s.drop_last(), verbatim)
        } else if c == seq!['.'] || c == seq!['.', '.'] {
            None
        } else {
            Some(c)
        }
    }
}

/// The name that a path ends in, if it does.
pub open spec fn file_name_of(s: Seq<char>) -> Option<Seq<char>> {
    last_component(s.skip(prefix_len(s)), is_verbatim(s))
}

/// The place of the last dot, or -1.
pub open spec fn last_dot(s: Seq<char>) -> int
    decreases s.len(),
{
    if s.len() == 0 {
        -1
    } else if s.last() == '.' {
        s.len() - 1
    } else {
        last_dot(s.drop_last())
    }
}

/// The name that a path ends in, without its extension.
pub open spec fn stem_of(s: Seq<char>) -> Option<Seq<char>> {
    match file_name_of(s) {
        None => None,
        Some(n) => Some(
            if last_dot(n) <= 0 {
                n
            } else {
                n.take(last_dot(n))
            },
        ),
    }
}

/// The extension of the name that a path ends in: what follows the last dot,
/// unless the name begins with that dot.
pub open spec fn extension_of(s: Seq<char>) -> Option<Seq<char>> {
    match file_name_of(s) {
        None => None,
        Some(n) => if last_dot(n) <= 0 {
            None
        } else {
            Some(n.skip(last_dot(n) + 1))
        },
    }
}

proof fn lemma_last_dot(s: Seq<char>, d: int)
    requires
        -1 <= d < s.len(),
        d >= 0 ==> s[d] == '.',
        forall|k: int| d < k < s.len() ==> s[k] != '.',
    ensures
        last_dot(s) == d,
    decreases s.len(),
{
    if s.len() > 0 && d < s.len() - 1 {
        assert(s.last() == s[s.len() - 1]);
        lemma_last_dot(s.drop_last(), d);
    }
}

proof fn lemma_last_dot_range(s: Seq<char>)
    ensures
        -1 <= last_dot(s) < s.len(),
        last_dot(s) >= 0 ==> s[last_dot(s)] == '.',
        forall|k: int| last_dot(s) < k < s.len() ==> s[k] != '.',
    decreases s.len(),
{
    if s.len() > 0 && s.last() != '.' {
        lemma_last_dot_range(s.drop_last());
        assert forall|k: int| last_dot(s) < k < s.len() implies s[k] != '.' by {
            if k < s.len() - 1 {
                assert(s[k] == s.drop_last()[k]);
            }
        }
    }
}

proof fn lemma_last_separator(s: Seq<char>, verbatim: bool, d: int)
    requires
        -1 <= d < s.len(),
        d >= 0 ==> is_separator(s[d], verbatim),
        forall|k: int| d < k < s.len() ==> !is_separator(#[trigger] s[k], verbatim),
    ensures
        last_separator(s, verbatim) == d,
    decreases s.len(),
{
    if s.len() > 0 && d < s.len() - 1 {
        assert(!is_separator(s[s.len() - 1], verbatim));
        lemma_last_separator(s.drop_last(), verbatim, d);
    }
}

proof fn lemma_last_separator_range(s: Seq<char>, verbatim: bool)
    ensures
        -1 <= last_separator(s, verbatim) < s.len(),
        forall|k: int|
            last_separator(s, verbatim) < k < s.len() ==> !is_separator(#[trigger] s[k], verbatim),
        last_separator(s, verbatim) >= 0 ==> is_separator(s[last_separator(s, verbatim)], verbatim),
    decreases s.len(),
{
    if s.len() > 0 && !is_separator(s.last(), verbatim) {
        lemma_last_separator_range(s.drop_last(), verbatim);
        assert forall|k: int| last_separator(s, verbatim) < k < s.len() implies !is_separator(
            #[trigger] s[k],
            verbatim,
        ) by {
            if k < s.len() - 1 {
                assert(s[k] == s.drop_last()[k]);
            }
        }
    }
}

proof fn lemma_part_len(s: Seq<char>, i: int, verbatim: bool)
    ensures
        part_len(s, i, verbatim) >= 0,
        0 <= i <= s.len() ==> i + part_len(s, i, verbatim) <= s.len(),
    decreases s.len() - i,
{
    if 0 <= i < s.len() && !is_separator(s[i], verbatim) {
        lemma_part_len(s, i + 1, verbatim);
    }
}

/// What says where a path begins is part of it.
pub proof fn prefix_is_part_of_the_path(s: Seq<char>)
    ensures
        0 <= prefix_len(s) <= s.len(),
{
    lemma_part_len(s, 2, false);
    lemma_part_len(s, 4, false);
    lemma_part_len(s, 4, true);
    lemma_part_len(s, 8, true);
    lemma_part_len(s, 2 + part_len(s, 2, false) + 1, false);
    lemma_part_len(s, 8 + part_len(s, 8, true) + 1, true);
}

/// A name is not empty and holds no separator.
pub proof fn names_hold_no_separator(s: Seq<char>)
    ensures
        file_name_of(s) matches Some(n) ==> n.len() > 0 && forall|k: int|
            0 <= k < n.len() ==> !is_separator(#[trigger] n[k], is_verbatim(s)),
{
    lemma_component(s.skip(prefix_len(s)), is_verbatim(s));
}

proof fn lemma_component(s: Seq<char>, verbatim: bool)
    ensures
        last_component(s, verbatim) matches Some(n) ==> n.len() > 0 && forall|k: int|
            0 <= k < n.len() ==> !is_separator(#[trigger] n[k], verbatim),
    decreases s.len(),
{
    if s.len() > 0 {
        lemma_component(s.drop_last(), verbatim);
        lemma_last_separator_range(s, verbatim);
    }
}

/// Where there is no slash, a name stands for itself, but for a drive in front.
pub proof fn plain_name_is_itself(s: Seq<char>)
    requires
        forall|k: int| 0 <= k < s.len() ==> !is_slash(#[trigger] s[k]),
    ensures
        file_name_of(s) matches Some(n) ==> n == if has_drive(s, 0) {
            s.skip(2)
        } else {
            s
        },
{
    let t = s.skip(prefix_len(s));
    assert(!is_verbatim(s)) by {
        if is_verbatim(s) {
            assert(is_slash(s[0]));
        }
    }
    assert(s.skip(0) == s);
    if t.len() > 0 {
        assert forall|k: int| 0 <= k < t.len() implies !is_separator(#[trigger] t[k], false) by {
            assert(!is_slash(s[k + prefix_len(s)]));
        }
        lemma_last_separator(t, false, -1);
        assert(t.skip(0) == t);
        if t == seq!['.'] {
            assert(t.drop_last() == Seq::<char>::empty());
            assert(last_component(t.drop_last(), false) is None);
        }
    }
}

fn separates(c: char, verbatim: bool) -> (r: bool)
    ensures
        r == is_separator(c, verbatim),
{
    c == '\\' || (c == '/' && !verbatim)
}

fn chars_of(s: &str) -> (r: Vec<char>)
    ensures
        r@ == s@,
{
    let mut out: Vec<char> = Vec::new();
    for c in it: s.chars()
        invariant
            it.seq() == s@,
            out@ == s@.take(it.index() as int),
    {
        assert(s@.take(it.index() + 1) == s@.take(it.index() as int).push(c));
        out.push(c);
    }
    assert(s@.take(s@.len() as int) == s@);
    out
}

fn slash_at(chars: &Vec<char>, i: usize) -> (r: bool)
    requires
        i < chars@.len(),
    ensures
        r == is_slash(chars@[i as int]),
{
    chars[i] == '/' || chars[i] == '\\'
}

fn drive_at(chars: &Vec<char>, i: usize) -> (r: bool)
    requires
        i < 8,
    ensures
        r == has_drive(chars@, i as int),
{
    chars.len() >= i + 2 && (('a' <= chars[i] && chars[i] <= 'z') || ('A' <= chars[i] && chars[i]
        <= 'Z')) && chars[i + 1] == ':'
}

fn starts_verbatim(chars: &Vec<char>) -> (r: bool)
    ensures
        r == is_verbatim(chars@),
{
    chars.len() >= 4 && chars[0] == '\\' && chars[1] == '\\' && chars[2] == '?' && chars[3] == '\\'
}

/// Where the part ends that begins at `i`.
fn part_end(chars: &Vec<char>, i: usize, verbatim: bool) -> (end: usize)
    requires
        i <= chars@.len(),
    ensures
        i <= end <= chars@.len(),
        end == i + part_len(chars@, i as int, verbatim),
{
    let mut end: usize = i;
    while end < chars.len()
        invariant_except_break
            i <= end <= chars@.len(),
            i + part_len(chars@, i as int, verbatim) == end + part_len(
                chars@,
                end as int,
                verbatim,
            ),
        ensures
            i <= end <= chars@.len(),
            end == i + part_len(chars@, i as int, verbatim),
        decreases chars@.len() - end,
    {
        if separates(chars[end], verbatim) {
            break;
        }
        end += 1;
    }
    end
}

/// Where the two parts end that begin at `i`.
fn share_end(chars: &Vec<char>, i: usize, verbatim: bool) -> (end: usize)
    requires
        i <= chars@.len(),
    ensures
        i <= end <= chars@.len(),
        end == i + share_len(chars@, i as int, verbatim),
{
    let server: usize = part_end(chars, i, verbatim);
    if server == chars.len() {
        return server;
    }
    let share: usize = part_end(chars, server + 1, verbatim);
    if share > server + 1 {
        share
    } else {
        server
    }
}

/// Where the prefix of a path ends.
fn prefix_end(chars: &Vec<char>) -> (end: usize)
    ensures
        end == prefix_len(chars@),
        end <= chars@.len(),
{
    proof {
        prefix_is_part_of_the_path(chars@);
    }
    if starts_verbatim(chars) {
        if chars.len() >= 8 && chars[4] == 'U' && chars[5] == 'N' && chars[6] == 'C' && slash_at(
            chars,
            7,
        ) {
            share_end(chars, 8, true)
        } else if drive_at(chars, 4) && (chars.len() == 6 || slash_at(chars, 6)) {
            6
        } else {
            part_end(chars, 4, true)
        }
    } else if chars.len() >= 2 && slash_at(chars, 0) && slash_at(chars, 1) {
        if chars.len() >= 4 && chars[2] == '.' && slash_at(chars, 3) {
            part_end(chars, 4, false)
        } else {
            let server: usize = part_end(chars, 2, false);
            let share: usize = share_end(chars, 2, false);
            if server > 2 && share > server {
                share
            } else {
                0
            }
        }
    } else if drive_at(chars, 0) {
        2
    } else {
        0
    }
}

/// The path ends in a separator, or in a part that stands for the directory it
/// is in.
spec fn ends_idly(s: Seq<char>, verbatim: bool) -> bool {
    s.len() > 0 && (is_separator(s.last(), verbatim) || (!verbatim && s.last() == '.' && (s.len()
        == 1 || is_separator(s[s.len() - 2], verbatim))))
}

proof fn lemma_idle_end(s: Seq<char>, verbatim: bool)
    requires
        ends_idly(s, verbatim),
    ensures
        last_component(s, verbatim) == last_component(s.drop_last(), verbatim),
{
    if !is_separator(s.last(), verbatim) {
        lemma_last_separator(s, verbatim, s.len() - 2);
        assert(s.skip(last_separator(s, verbatim) + 1) == seq!['.']);
    }
}

/// Where the path behind `start` ends once its idle ends are taken off.
fn busy_end(chars: &Vec<char>, start: usize, verbatim: bool) -> (end: usize)
    requires
        start <= chars@.len(),
    ensures
        start <= end <= chars@.len(),
        !ends_idly(chars@.subrange(start as int, end as int), verbatim),
        last_component(chars@.skip(start as int), verbatim) == last_component(
            chars@.subrange(start as int, end as int),
            verbatim,
        ),
{
    let mut end: usize = chars.len();
    assert(chars@.subrange(start as int, end as int) == chars@.skip(start as int));
    loop
        invariant
            start <= end <= chars@.len(),
            last_component(chars@.skip(start as int), verbatim) == last_component(
                chars@.subrange(start as int, end as int),
                verbatim,
            ),
        ensures
            !ends_idly(chars@.subrange(start as int, end as int), verbatim),
        decreases end,
    {
        let ghost u = chars@.subrange(start as int, end as int);
        if end == start {
            break;
        }
        assert(u.last() == chars@[end - 1]);
        let idle: bool = separates(chars[end - 1], verbatim) || (!verbatim && chars[end - 1] == '.'
            && (end - 1 == start || separates(chars[end - 2], verbatim)));
        if !idle {
            break;
        }
        proof {
            lemma_idle_end(u, verbatim);
            assert(u.drop_last() == chars@.subrange(start as int, end - 1));
        }
        end -= 1;
    }
    end
}

/// Where the last part of the path between `start` and `end` begins.
fn part_begin(chars: &Vec<char>, start: usize, end: usize, verbatim: bool) -> (begin: usize)
    requires
        start < end <= chars@.len(),
        !ends_idly(chars@.subrange(start as int, end as int), verbatim),
    ensures
        start <= begin < end,
        ({
            let u = chars@.subrange(start as int, end as int);
            last_separator(u, verbatim) + 1 == begin - start && u.skip(
                last_separator(u, verbatim) + 1,
            ) == chars@.subrange(begin as int, end as int)
        }),
{
    let ghost u = chars@.subrange(start as int, end as int);
    let mut begin: usize = end - 1;
    assert(u.last() == chars@[end - 1]);
    while begin > start
        invariant_except_break
            start <= begin < end <= chars@.len(),
            forall|k: int| begin <= k < end ==> !is_separator(#[trigger] chars@[k], verbatim),
        ensures
            start <= begin < end <= chars@.len(),
            forall|k: int| begin <= k < end ==> !is_separator(#[trigger] chars@[k], verbatim),
            begin == start || is_separator(chars@[begin - 1], verbatim),
        decreases begin,
    {
        if separates(chars[begin - 1], verbatim) {
            break;
        }
        begin -= 1;
    }
    proof {
        assert forall|k: int| begin - 1 - start < k < u.len() implies !is_separator(
            #[trigger] u[k],
            verbatim,
        ) by {
            assert(u[k] == chars@[k + start]);
        }
        lemma_last_separator(u, verbatim, begin - 1 - start);
        assert(u.skip(begin - start) == chars@.subrange(begin as int, end as int));
    }
    begin
}

/// Where the name that a path ends in begins and ends.
fn name_range(chars: &Vec<char>) -> (r: Option<(usize, usize)>)
    ensures
        match r {
            Some((a, b)) => a < b <= chars@.len() && file_name_of(chars@) == Some(
                chars@.subrange(a as int, b as int),
            ),
            None => file_name_of(chars@) is None,
        },
{
    let verbatim: bool = starts_verbatim(chars);
    let start: usize = prefix_end(chars);
    let end: usize = busy_end(chars, start, verbatim);
    if end == start {
        return None;
    }
    let begin: usize = part_begin(chars, start, end, verbatim);
    let ghost u = chars@.subrange(start as int, end as int);
    let ghost c = chars@.subrange(begin as int, end as int);
    let here: bool = end - begin == 1 && chars[begin] == '.';
    let above: bool = end - begin == 2 && chars[begin] == '.' && chars[begin + 1] == '.';
    proof {
        lemma_last_separator_range(u, verbatim);
        assert(here == (c == seq!['.'])) by {
            if here {
                assert(c == seq!['.']);
            }
            if c == seq!['.'] {
                assert(c.len() == 1 && c[0] == '.');
            }
        }
        assert(above == (c == seq!['.', '.'])) by {
            if above {
                assert(c == seq!['.', '.']);
            }
            if c == seq!['.', '.'] {
                assert(c.len() == 2 && c[0] == '.' && c[1] == '.');
            }
        }
        assert(here ==> verbatim) by {
            if here {
                assert(u.last() == '.');
                if u.len() > 1 {
                    assert(is_separator(u[u.len() - 2], verbatim));
                }
            }
        }
    }
    if here || above {
        None
    } else {
        Some((begin, end))
    }
}

/// Where the name that a path ends in begins and ends, and the place of its
/// last dot, if it has a stem and an extension.
fn split_point(chars: &Vec<char>) -> (r: Option<(usize, usize, Option<usize>)>)
    ensures
        match r {
            None => file_name_of(chars@) is None,
            Some((a, b, dot)) => {
                let n = chars@.subrange(a as int, b as int);
                &&& a < b <= chars@.len()
                &&& file_name_of(chars@) == Some(n)
                &&& match dot {
                    Some(d) => a < d < b && last_dot(n) == d - a,
                    None => last_dot(n) <= 0,
                }
            },
        },
{
    match name_range(chars) {
        None => None,
        Some((a, b)) => {
            let mut d: usize = b;
            while d > a && chars[d - 1] != '.'
                invariant
                    a <= d <= b <= chars@.len(),
                    forall|k: int| d <= k < b ==> chars@[k] != '.',
                decreases d,
            {
                d -= 1;
            }
            proof {
                lemma_last_dot(chars@.subrange(a as int, b as int), d - 1 - a);
            }
            if d > a + 1 {
                Some((a, b, Some(d - 1)))
            } else {
                Some((a, b, None))
            }
        },
    }
}

/// The name that a path ends in, without its extension, as paths are read on
/// Windows: parts are separated by either slash, and what says where the path
/// begins, such as a drive or a network share, is no part of a name.
pub fn file_stem(s: &str) -> (r: Option<String>)
    ensures
        match r {
            Some(t) => stem_of(s@) == Some(t@),
            None => stem_of(s@) is None,
        },
{
    let chars: Vec<char> = chars_of(s);
    match split_point(&chars) {
        None => None,
        Some((a, b, Some(d))) => {
            assert(s@.subrange(a as int, d as int) == s@.subrange(a as int, b as int).take(d - a));
            Some(s.substring_char(a, d).to_owned())
        },
        Some((a, b, None)) => Some(s.substring_char(a, b).to_owned()),
    }
}

/// The extension of the name that a path ends in, without the dot.
pub fn extension(s: &str) -> (r: Option<String>)
    ensures
        match r {
            Some(t) => extension_of(s@) == Some(t@),
            None => extension_of(s@) is None,
        },
{
    let chars: Vec<char> = chars_of(s);
    match split_point(&chars) {
        Some((a, b, Some(d))) => {
            assert(s@.subrange(d + 1, b as int) == s@.subrange(a as int, b as int).skip(
                d + 1 - a,
            ));
            Some(s.substring_char(d + 1, b).to_owned())
        },
        _ => None,
    }
}

/// A name is its stem, or its stem, a dot and its extension, which holds no dot.
pub proof fn name_is_stem_and_extension(s: Seq<char>)
    requires
        file_name_of(s) is Some,
    ensures
        stem_of(s) is Some,
        match extension_of(s) {
            Some(e) => file_name_of(s)->0 == stem_of(s)->0.push('.') + e && forall|k: int|
                0 <= k < e.len() ==> e[k] != '.',
            None => file_name_of(s)->0 == stem_of(s)->0,
        },
{
    let n = file_name_of(s)->0;
    lemma_last_dot_range(n);
    if extension_of(s) is Some {
        assert(n == stem_of(s)->0.push('.') + extension_of(s)->0);
    }
}

/// A text without slashes or colons, such as a name on its own.
pub open spec fn is_plain(s: Seq<char>) -> bool {
    forall|k: int| 0 <= k < s.len() ==> (#[trigger] s[k]) != '/' && s[k] != '\\' && s[k] != ':'
}

/// A plain text names a file, unless it is empty, or one dot or two.
pub proof fn plain_text_is_a_name(s: Seq<char>)
    requires
        is_plain(s),
    ensures
        s.len() == 0 || s == seq!['.'] || s == seq!['.', '.'] ==> file_name_of(s) is None,
        !(s.len() == 0 || s == seq!['.'] || s == seq!['.', '.']) ==> file_name_of(s) == Some(s),
{
    assert(!is_verbatim(s));
    assert(prefix_len(s) == 0);
    assert(s.skip(0) == s);
    if s.len() > 0 {
        lemma_last_separator(s, false, -1);
        if s == seq!['.'] {
            assert(s.drop_last() == Seq::<char>::empty());
            assert(last_component(s.drop_last(), false) is None);
        }
    }
}

/// A stem, a dot and an extension make a name with that stem and that extension,
/// however long they are; the extension holds no dot, and may be empty.
pub proof fn name_is_cut_at_its_last_dot(stem: Seq<char>, ext: Seq<char>)
    requires
        stem.len() > 0,
        is_plain(stem),
        is_plain(ext),
        forall|k: int| 0 <= k < ext.len() ==> ext[k] != '.',
        !(stem == seq!['.'] && ext.len() == 0),
    ensures
        extension_of(stem.push('.') + ext) == Some(ext),
        stem_of(stem.push('.') + ext) == Some(stem),
{
    let n = stem.push('.') + ext;
    assert forall|k: int| 0 <= k < n.len() implies (#[trigger] n[k]) != '/' && n[k] != '\\' && n[k]
        != ':' by {
        if k < stem.len() {
            assert(n[k] == stem[k]);
        } else if k > stem.len() {
            assert(n[k] == ext[k - stem.len() - 1]);
        }
    }
    assert(n.len() >= 2);
    assert(n != seq!['.', '.']) by {
        if n == seq!['.', '.'] {
            assert(stem.len() + 1 + ext.len() == 2);
            assert(stem[0] == n[0]);
            assert(stem == seq!['.']);
        }
    }
    plain_text_is_a_name(n);
    assert forall|k: int| stem.len() < k < n.len() implies n[k] != '.' by {
        assert(n[k] == ext[k - stem.len() - 1]);
    }
    lemma_last_dot(n, stem.len() as int);
    assert(n.skip(stem.len() as int + 1) == ext);
    assert(n.take(stem.len() as int) == stem);
}

/// A name without a dot, or with one in front and none behind it, has no
/// extension: it is all stem.
pub proof fn name_without_an_inner_dot_is_all_stem(s: Seq<char>)
    requires
        s.len() > 0,
        is_plain(s),
        s != seq!['.'],
        forall|k: int| 1 <= k < s.len() ==> s[k] != '.',
    ensures
        extension_of(s) is None,
        stem_of(s) == Some(s),
{
    assert(s != seq!['.', '.']) by {
        if s == seq!['.', '.'] {
            assert(s[1] == '.');
        }
    }
    plain_text_is_a_name(s);
    lemma_last_dot_range(s);
}

/// The name that a path ends in does not depend on the directory before it:
/// what follows the last slash counts, whichever slash it is.  The directory may
/// begin with a drive or with one slash, but not with two.
pub proof fn directory_does_not_matter(dir: Seq<char>, slash: char, name: Seq<char>)
    requires
        slash == '/' || slash == '\\',
        dir.len() == 0 || !is_slash(dir[0]) || (dir.len() >= 2 && !is_slash(dir[1])),
        is_plain(name),
        name.len() > 0 && name != seq!['.'] && name != seq!['.', '.'],
    ensures
        file_name_of(dir.push(slash) + name) == Some(name),
        stem_of(dir.push(slash) + name) == stem_of(name),
        extension_of(dir.push(slash) + name) == extension_of(name),
{
    let s = dir.push(slash) + name;
    plain_text_is_a_name(name);
    assert(s[dir.len() as int] == slash);
    assert(!(s.len() >= 2 && is_slash(s[0]) && is_slash(s[1]))) by {
        if s.len() >= 2 && is_slash(s[0]) && is_slash(s[1]) {
            if dir.len() >= 2 {
                assert(s[0] == dir[0] && s[1] == dir[1]);
            } else if dir.len() == 1 {
                assert(s[0] == dir[0]);
            } else {
                assert(s[1] == name[0]);
            }
        }
    }
    let at = prefix_len(s);
    assert(at == 0 || at == 2);
    assert(at <= dir.len()) by {
        if at == 2 && dir.len() < 2 {
            assert(s[dir.len() as int] == slash);
        }
    }
    let t = s.skip(at);
    assert forall|k: int| dir.len() - at < k < t.len() implies !is_separator(
        #[trigger] t[k],
        false,
    ) by {
        assert(t[k] == name[k + at - dir.len() - 1]);
    }
    assert(t[dir.len() - at] == slash);
    lemma_last_separator(t, false, dir.len() - at);
    assert(t.skip(dir.len() - at + 1) == name);
    assert(t.last() == name[name.len() - 1]);
}

/// Slashes at the end of a path without one at its beginning do not count.
pub proof fn slash_at_the_end_does_not_matter(name: Seq<char>, slash: char)
    requires
        slash == '/' || slash == '\\',
        is_plain(name),
        name.len() > 0,
    ensures
        file_name_of(name.push(slash)) == file_name_of(name),
{
    let s = name.push(slash);
    assert(s[0] == name[0]);
    assert(!is_verbatim(s) && prefix_len(s) == 0) by {
        if s.len() >= 2 {
            assert(s[1] == slash || s[1] == name[1]);
        }
    }
    assert(prefix_len(name) == 0 && !is_verbatim(name));
    assert(s.skip(0) == s && name.skip(0) == name);
    assert(s.drop_last() == name);
}

/// A drive is no part of a name.
pub proof fn drive_does_not_matter(letter: char, name: Seq<char>)
    requires
        'a' <= letter <= 'z' || 'A' <= letter <= 'Z',
        is_plain(name),
    ensures
        file_name_of(seq![letter, ':'] + name) == file_name_of(name),
{
    let s = seq![letter, ':'] + name;
    assert(s[0] == letter && s[1] == ':');
    assert(has_drive(s, 0));
    assert(!is_verbatim(s));
    assert(s.skip(2) == name);
    assert(prefix_len(name) == 0 && !is_verbatim(name)) by {
        if name.len() >= 2 {
            assert(name[0] != '\\' && name[1] != ':');
        }
    }
    assert(name.skip(0) == name);
}

/// The root of a network share is no name; what lies in it has one.
pub proof fn share_is_no_name(server: Seq<char>, share: Seq<char>, name: Seq<char>)
    requires
        is_plain(server) && server.len() > 0,
        is_plain(share) && share.len() > 0,
        is_plain(name),
        server != seq!['.'],
        server != seq!['?'],
    ensures
        file_name_of(seq!['\\', '\\'] + server.push('\\') + share) is None,
        file_name_of((seq!['\\', '\\'] + server.push('\\') + share).push('\\') + name)
            == file_name_of(name),
{
    let root = seq!['\\', '\\'] + server.push('\\') + share;
    let s = root.push('\\') + name;
    lemma_share(server, share, Seq::empty());
    assert(root + Seq::<char>::empty() == root);
    assert(root.skip(root.len() as int) == Seq::<char>::empty());
    let rest = seq!['\\'] + name;
    lemma_share(server, share, rest);
    assert(s == root + rest);
    let t = s.skip(root.len() as int);
    assert(t == rest);
    assert(name.skip(0) == name);
    assert(prefix_len(name) == 0 && !is_verbatim(name)) by {
        if name.len() >= 2 {
            assert(name[0] != '\\' && name[1] != ':');
        }
    }
    if name.len() == 0 {
        assert(t.drop_last() == Seq::<char>::empty());
        assert(t.last() == '\\');
        assert(last_component(t, false) == last_component(Seq::empty(), false));
    } else {
        assert(t.last() == name.last());
        assert forall|k: int| 0 < k < t.len() implies !is_separator(#[trigger] t[k], false) by {
            assert(t[k] == name[k - 1]);
        }
        lemma_last_separator(t, false, 0);
        assert(t.skip(1) == name);
        lemma_last_separator(name, false, -1);
        assert(name.last() == name[name.len() - 1]);
        if name == seq!['.'] {
            assert(t.drop_last() == seq!['\\']);
            assert(seq!['\\'].drop_last() == Seq::<char>::empty());
            assert(last_component(seq!['\\'], false) == last_component(Seq::empty(), false));
            assert(name.drop_last() == Seq::<char>::empty());
        }
    }
}

proof fn lemma_share(server: Seq<char>, share: Seq<char>, rest: Seq<char>)
    requires
        is_plain(server) && server.len() > 0,
        is_plain(share) && share.len() > 0,
        server != seq!['.'],
        server != seq!['?'],
        rest.len() == 0 || rest[0] == '\\',
    ensures
        ({
            let root = seq!['\\', '\\'] + server.push('\\') + share;
            prefix_len(root + rest) == root.len() && !is_verbatim(root + rest)
        }),
{
    let root = seq!['\\', '\\'] + server.push('\\') + share;
    let s = root + rest;
    assert(s[0] == '\\' && s[1] == '\\');
    assert(s[2] == server[0]);
    assert(s[server.len() as int + 2] == '\\');
    assert forall|k: int| 2 <= k < 2 + server.len() implies !is_separator(#[trigger] s[k], false) by {
        assert(s[k] == server[k - 2]);
    }
    assert forall|k: int| server.len() + 3 <= k < server.len() + 3 + share.len() implies !is_separator(
        #[trigger] s[k],
        false,
    ) by {
        assert(s[k] == share[k - 3 - server.len()]);
    }
    if rest.len() > 0 {
        assert(s[root.len() as int] == rest[0]);
    }
    lemma_part_of(s, 2, server.len() as int, false);
    lemma_part_of(s, server.len() as int + 3, share.len() as int, false);
    if server.len() == 1 {
        assert(server[0] == '.' ==> server == seq!['.']);
        assert(server[0] == '?' ==> server == seq!['?']);
    } else {
        assert(s[3] == server[1]);
    }
}

/// A part at the end that stands for the directory it is in does not count; one
/// that stands for the directory above is no name.
pub proof fn dots_at_the_end_are_no_name(name: Seq<char>, slash: char)
    requires
        slash == '/' || slash == '\\',
        is_plain(name),
        name.len() > 0,
    ensures
        file_name_of(name.push(slash).push('.')) == file_name_of(name),
        file_name_of(name.push(slash).push('.').push('.')) is None,
{
    let s = name.push(slash).push('.');
    let t = s.push('.');
    assert(s[0] == name[0] && t[0] == name[0]);
    assert(s[1] == slash || s[1] == name[1]);
    assert(t[1] == slash || t[1] == name[1]);
    assert(!is_verbatim(s) && prefix_len(s) == 0);
    assert(!is_verbatim(t) && prefix_len(t) == 0);
    assert(!is_verbatim(name) && prefix_len(name) == 0);
    assert(s.skip(0) == s && t.skip(0) == t && name.skip(0) == name);
    lemma_last_separator(s, false, name.len() as int);
    lemma_last_separator(t, false, name.len() as int);
    assert(s.skip(name.len() as int + 1) == seq!['.']);
    assert(t.skip(name.len() as int + 1) == seq!['.', '.']);
    assert(s.drop_last() == name.push(slash));
    assert(s.drop_last().drop_last() == name);
    assert(last_component(name.push(slash), false) == last_component(name, false));
    assert(last_component(t, false) is None);
}

/// In a verbatim path on a drive only the backslash separates: what follows the
/// last one is the name as it stands, and one dot or two are none.
pub proof fn verbatim_name_stands_as_it_is(letter: char, name: Seq<char>)
    requires
        'a' <= letter <= 'z' || 'A' <= letter <= 'Z',
        name.len() > 0,
        forall|k: int| 0 <= k < name.len() ==> name[k] != '\\',
    ensures
        name != seq!['.'] && name != seq!['.', '.'] ==> file_name_of(
            seq!['\\', '\\', '?', '\\', letter, ':', '\\'] + name,
        ) == Some(name),
        name == seq!['.'] || name == seq!['.', '.'] ==> file_name_of(
            seq!['\\', '\\', '?', '\\', letter, ':', '\\'] + name,
        ) is None,
{
    let s = seq!['\\', '\\', '?', '\\', letter, ':', '\\'] + name;
    assert(s[0] == '\\' && s[1] == '\\' && s[2] == '?' && s[3] == '\\');
    assert(s[4] == letter && s[5] == ':' && s[6] == '\\');
    assert(has_drive(s, 4));
    assert(prefix_len(s) == 6);
    let t = s.skip(6);
    assert(t[0] == '\\');
    assert forall|k: int| 0 < k < t.len() implies !is_separator(#[trigger] t[k], true) by {
        assert(t[k] == name[k - 1]);
    }
    lemma_last_separator(t, true, 0);
    assert(t.skip(1) == name);
    assert(t.last() == name[name.len() - 1]);
}

/// Going into a directory keeps where it is and comes behind the names so far.
pub proof fn joining_goes_one_name_further(l: LocationView, name: Seq<char>, i: int)
    ensures
        l.join(name).base == l.base,
        l.join(name).parts.len() == l.parts.len() + 1,
        l.join(name).parts.last() == name,
        0 <= i < l.parts.len() ==> l.join(name).parts[i] == l.parts[i],
{
}

/// What a location is holds its base and its names, in order.
pub proof fn view_tells_the_location(l: Location)
    ensures
        l@.base == l.base@,
        l@.parts.len() == l.parts@.len(),
        forall|i: int| 0 <= i < l.parts@.len() ==> l@.parts[i] == (#[trigger] l.parts@[i])@,
{
}

proof fn lemma_part_of(s: Seq<char>, i: int, n: int, verbatim: bool)
    requires
        0 <= i && 0 <= n && i + n <= s.len(),
        forall|k: int| i <= k < i + n ==> !is_separator(#[trigger] s[k], verbatim),
        i + n == s.len() || is_separator(s[i + n], verbatim),
    ensures
        part_len(s, i, verbatim) == n,
    decreases n,
{
    if n > 0 {
        assert(!is_separator(s[i], verbatim));
        lemma_part_of(s, i + 1, n - 1, verbatim);
    }
}

proof fn lemma_after_the_prefix(s: Seq<char>, at: int, name: Seq<char>)
    requires
        0 <= at < s.len(),
        prefix_len(s) == at,
        s[at] == '\\',
        s.skip(at + 1) == name,
        name.len() > 0,
        forall|k: int| 0 <= k < name.len() ==> name[k] != '\\' && name[k] != '/',
        name != seq!['.'] && name != seq!['.', '.'],
    ensures
        file_name_of(s) == Some(name),
{
    let t = s.skip(at);
    assert(t[0] == '\\');
    assert forall|k: int| 0 < k < t.len() implies !is_separator(#[trigger] t[k], is_verbatim(s)) by {
        assert(t[k] == name[k - 1]);
    }
    lemma_last_separator(t, is_verbatim(s), 0);
    assert(t.skip(1) == name);
    assert(t.last() == name[name.len() - 1]);
}

/// A device is no name; what lies in it has one.
pub proof fn device_is_no_name(device: Seq<char>, name: Seq<char>)
    requires
        is_plain(device) && device.len() > 0,
        is_plain(name) && name.len() > 0,
        name != seq!['.'] && name != seq!['.', '.'],
    ensures
        file_name_of(seq!['\\', '\\', '.', '\\'] + device) is None,
        file_name_of((seq!['\\', '\\', '.', '\\'] + device).push('\\') + name) == Some(name),
{
    let root = seq!['\\', '\\', '.', '\\'] + device;
    let s = root.push('\\') + name;
    assert(root[0] == '\\' && root[1] == '\\' && root[2] == '.' && root[3] == '\\');
    assert(s[0] == '\\' && s[1] == '\\' && s[2] == '.' && s[3] == '\\');
    assert forall|k: int| 4 <= k < root.len() implies !is_separator(#[trigger] root[k], false) by {
        assert(root[k] == device[k - 4]);
    }
    assert forall|k: int| 4 <= k < root.len() implies !is_separator(#[trigger] s[k], false) by {
        assert(s[k] == device[k - 4]);
    }
    lemma_part_of(root, 4, device.len() as int, false);
    assert(s[root.len() as int] == '\\');
    lemma_part_of(s, 4, device.len() as int, false);
    assert(root.skip(root.len() as int) == Seq::<char>::empty());
    assert(s.skip(root.len() as int + 1) == name);
    lemma_after_the_prefix(s, root.len() as int, name);
}

/// Neither is the first part of a verbatim path, nor a verbatim network share;
/// what lies in them has one.
pub proof fn verbatim_root_is_no_name(server: Seq<char>, share: Seq<char>, name: Seq<char>)
    requires
        is_plain(server) && server.len() > 0,
        is_plain(share) && share.len() > 0,
        is_plain(name) && name.len() > 0,
        name != seq!['.'] && name != seq!['.', '.'],
        server != seq!['U', 'N', 'C'],
    ensures
        file_name_of(seq!['\\', '\\', '?', '\\'] + server) is None,
        file_name_of((seq!['\\', '\\', '?', '\\'] + server).push('\\') + name) == Some(name),
        file_name_of(
            seq!['\\', '\\', '?', '\\', 'U', 'N', 'C', '\\'] + server.push('\\') + share,
        ) is None,
        file_name_of(
            (seq!['\\', '\\', '?', '\\', 'U', 'N', 'C', '\\'] + server.push('\\') + share).push(
                '\\',
            ) + name,
        ) == Some(name),
{
    let root = seq!['\\', '\\', '?', '\\'] + server;
    let s = root.push('\\') + name;
    assert(root[0] == '\\' && root[1] == '\\' && root[2] == '?' && root[3] == '\\');
    assert(s[0] == '\\' && s[1] == '\\' && s[2] == '?' && s[3] == '\\');
    assert forall|k: int| 4 <= k < root.len() implies !is_separator(#[trigger] root[k], true)
        && root[k] != ':' by {
        assert(root[k] == server[k - 4]);
    }
    assert forall|k: int| 4 <= k < root.len() implies !is_separator(#[trigger] s[k], true) && s[k]
        != ':' by {
        assert(s[k] == server[k - 4]);
    }
    assert(s[root.len() as int] == '\\');
    lemma_part_of(root, 4, server.len() as int, true);
    lemma_part_of(s, 4, server.len() as int, true);
    assert(!has_drive(root, 4));
    assert(!has_drive(s, 4)) by {
        if has_drive(s, 4) {
            assert(s[5] == ':');
            assert(root.len() > 5);
        }
    }
    assert(!(root.len() >= 8 && root[4] == 'U' && root[5] == 'N' && root[6] == 'C' && is_slash(
        root[7],
    ))) by {
        if root.len() >= 8 && is_slash(root[7]) {
            assert(root[7] == server[3]);
        }
    }
    assert(!(s.len() >= 8 && s[4] == 'U' && s[5] == 'N' && s[6] == 'C' && is_slash(s[7]))) by {
        if s.len() >= 8 && s[4] == 'U' && s[5] == 'N' && s[6] == 'C' && is_slash(s[7]) {
            if root.len() > 7 {
                assert(s[7] == server[3]);
            } else if root.len() == 7 {
                assert(server[0] == s[4] && server[1] == s[5] && server[2] == s[6]);
                assert(server == seq!['U', 'N', 'C']);
            } else if root.len() == 6 {
                assert(s[6] == '\\');
            } else {
                assert(s[5] == '\\');
            }
        }
    }
    assert(root.skip(root.len() as int) == Seq::<char>::empty());
    assert(s.skip(root.len() as int + 1) == name);
    lemma_after_the_prefix(s, root.len() as int, name);
    let base = seq!['\\', '\\', '?', '\\', 'U', 'N', 'C', '\\'] + server.push('\\') + share;
    let t = base.push('\\') + name;
    lemma_verbatim_share(server, share, Seq::empty());
    assert(base + Seq::<char>::empty() == base);
    assert(base.skip(base.len() as int) == Seq::<char>::empty());
    lemma_verbatim_share(server, share, seq!['\\'] + name);
    assert(t == base + (seq!['\\'] + name));
    assert(t[base.len() as int] == '\\');
    assert(t.skip(base.len() as int + 1) == name);
    lemma_after_the_prefix(t, base.len() as int, name);
}

proof fn lemma_verbatim_share(server: Seq<char>, share: Seq<char>, rest: Seq<char>)
    requires
        is_plain(server) && server.len() > 0,
        is_plain(share) && share.len() > 0,
        rest.len() == 0 || rest[0] == '\\',
    ensures
        ({
            let base = seq!['\\', '\\', '?', '\\', 'U', 'N', 'C', '\\'] + server.push('\\') + share;
            prefix_len(base + rest) == base.len() && is_verbatim(base + rest)
        }),
{
    let base = seq!['\\', '\\', '?', '\\', 'U', 'N', 'C', '\\'] + server.push('\\') + share;
    let s = base + rest;
    let n = server.len() as int;
    assert(s[0] == '\\' && s[1] == '\\' && s[2] == '?' && s[3] == '\\');
    assert(s[4] == 'U' && s[5] == 'N' && s[6] == 'C' && s[7] == '\\');
    assert(s[8 + n] == '\\');
    assert forall|k: int| 8 <= k < 8 + n implies !is_separator(#[trigger] s[k], true) by {
        assert(s[k] == server[k - 8]);
    }
    assert forall|k: int| 9 + n <= k < base.len() implies !is_separator(#[trigger] s[k], true) by {
        assert(s[k] == share[k - 9 - n]);
    }
    if rest.len() > 0 {
        assert(s[base.len() as int] == rest[0]);
    }
    lemma_part_of(s, 8, n, true);
    lemma_part_of(s, 9 + n, share.len() as int, true);
}

/// Two slashes and a server without a share say nothing of where the path
/// begins: what follows them is a name.
pub proof fn server_alone_is_a_name(server: Seq<char>)
    requires
        is_plain(server) && server.len() > 0,
        server != seq!['.'] && server != seq!['.', '.'],
    ensures
        file_name_of(seq!['\\', '\\'] + server) == Some(server),
{
    let s = seq!['\\', '\\'] + server;
    assert(s[0] == '\\' && s[1] == '\\');
    assert forall|k: int| 2 <= k < s.len() implies !is_separator(#[trigger] s[k], false) && s[k]
        != ':' by {
        assert(s[k] == server[k - 2]);
    }
    if s.len() >= 4 {
        assert(!is_separator(s[3], false));
    }
    assert(!is_verbatim(s));
    lemma_part_of(s, 2, server.len() as int, false);
    assert(part_len(s, s.len() as int + 1, false) == 0);
    assert(prefix_len(s) == 0);
    assert(s.skip(0) == s);
    lemma_last_separator(s, false, 1);
    assert(s.skip(2) == server);
    assert(s.last() == server[server.len() - 1]);
}

/// Whatever a path begins with, the name behind its last backslash is what it
/// ends in.
pub proof fn last_name_counts(front: Seq<char>, name: Seq<char>)
    requires
        prefix_len(front.push('\\') + name) <= front.len(),
        is_plain(name) && name.len() > 0,
        name != seq!['.'] && name != seq!['.', '.'],
    ensures
        file_name_of(front.push('\\') + name) == Some(name),
        stem_of(front.push('\\') + name) == stem_of(name),
        extension_of(front.push('\\') + name) == extension_of(name),
{
    let s = front.push('\\') + name;
    prefix_is_part_of_the_path(s);
    plain_text_is_a_name(name);
    let at = prefix_len(s);
    let t = s.skip(at);
    assert(t[front.len() - at] == '\\');
    assert forall|k: int| front.len() - at < k < t.len() implies !is_separator(
        #[trigger] t[k],
        is_verbatim(s),
    ) by {
        assert(t[k] == name[k + at - front.len() - 1]);
    }
    lemma_last_separator(t, is_verbatim(s), front.len() - at);
    assert(t.skip(front.len() - at + 1) == name);
    assert(t.last() == name[name.len() - 1]);
}

} // verus!
