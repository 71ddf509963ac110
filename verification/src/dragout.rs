//! Dragging files out of a fence: what the data source offers, in which
//! formats, and when the drag ends.

use crate::text::{
    append_utf16, decoding_undoes_encoding, encoding_adds_no_zero, texts, utf16, utf16_lossy,
};
use crate::watcher::{u16s_at, u32_at};
use vstd::prelude::*;

verus! {

/// The clipboard format of a list of files.
pub const CF_HDROP: u16 = 15;

/// The aspect of a format that is the content itself.
pub const DVASPECT_CONTENT: u32 = 1;

/// The medium that is a block of global memory.
pub const TYMED_HGLOBAL: u32 = 1;

/// The direction of formats that can be read.
pub const DATADIR_GET: u32 = 1;

/// The left mouse button among the key states.
pub const MK_LBUTTON: u32 = 1;

pub const DROPEFFECT_NONE: u32 = 0;

pub const DROPEFFECT_COPY: u32 = 1;

pub const DROPEFFECT_MOVE: u32 = 2;

/// What a drag out of a fence lets the target do: copy or move.
pub const DRAG_EFFECTS: u32 = 3;

pub const S_OK: u32 = 0;

pub const S_FALSE: u32 = 1;

pub const E_NOTIMPL: u32 = 0x8000_4001;

pub const E_INVALIDARG: u32 = 0x8007_0057;

/// The data is not offered in the format that was asked for.
pub const DATA_E_FORMATETC: u32 = 0x8004_0064;

pub const DRAGDROP_S_DROP: u32 = 0x4_0100;

pub const DRAGDROP_S_CANCEL: u32 = 0x4_0101;

pub const DRAGDROP_S_USEDEFAULTCURSORS: u32 = 0x4_0102;

/// The size of the header in front of a list of files.
pub const DROPFILES_SIZE: u32 = 20;

/// A data format: what the data is, and on which media it can be had.
#[derive(Clone, Copy, PartialEq, Eq, Structural, Debug)]
pub struct FormatEtc {
    pub cf_format: u16,
    pub aspect: u32,
    pub lindex: i32,
    pub tymed: u32,
}

/// The format with the number `cf_format`, whole, in global memory.
pub open spec fn content_format(cf_format: u16) -> FormatEtc {
    FormatEtc { cf_format, aspect: DVASPECT_CONTENT, lindex: -1i32, tymed: TYMED_HGLOBAL }
}

/// The formats on offer: the files, and how they are best dropped.  The second
/// one's number is given out by the system: `preferred`.
pub open spec fn offered(preferred: u16) -> Seq<FormatEtc> {
    seq![content_format(CF_HDROP), content_format(preferred)]
}

/// The format of the list of files.
pub fn hdrop_format() -> (r: FormatEtc)
    ensures
        r == content_format(CF_HDROP),
{
    FormatEtc { cf_format: CF_HDROP, aspect: DVASPECT_CONTENT, lindex: -1, tymed: TYMED_HGLOBAL }
}

/// The format of the preferred effect, whose number is `preferred`.
pub fn preferred_drop_effect_format(preferred: u16) -> (r: FormatEtc)
    ensures
        r == content_format(preferred),
{
    FormatEtc { cf_format: preferred, aspect: DVASPECT_CONTENT, lindex: -1, tymed: TYMED_HGLOBAL }
}

/// The format on offer at position `pos`.
pub fn format_at(pos: u32, preferred: u16) -> (r: Option<FormatEtc>)
    ensures
        r == if pos < offered(preferred).len() {
            Some(offered(preferred)[pos as int])
        } else {
            None
        },
{
    if pos == 0 {
        Some(hdrop_format())
    } else if pos == 1 {
        Some(preferred_drop_effect_format(preferred))
    } else {
        None
    }
}

/// Whether data in the format `fmt` can be had: the content as a whole, global
/// memory among its media, one of the two format numbers on offer.
pub open spec fn supported(fmt: FormatEtc, preferred: u16) -> bool {
    &&& fmt.aspect == DVASPECT_CONTENT
    &&& fmt.lindex == -1
    &&& fmt.tymed & TYMED_HGLOBAL != 0
    &&& fmt.cf_format == CF_HDROP || fmt.cf_format == preferred
}

/// Whether data in the format `fmt` can be had.
pub fn is_supported_get_format(fmt: &FormatEtc, preferred: u16) -> (r: bool)
    ensures
        r == supported(*fmt, preferred),
{
    if fmt.aspect != DVASPECT_CONTENT || fmt.lindex != -1 || fmt.tymed & TYMED_HGLOBAL == 0 {
        return false;
    }
    fmt.cf_format == CF_HDROP || fmt.cf_format == preferred
}

/// Every format on offer can be had.
pub proof fn offered_formats_are_supported(preferred: u16, i: int)
    requires
        0 <= i < offered(preferred).len(),
    ensures
        supported(offered(preferred)[i], preferred),
{
    assert(1u32 & 1u32 != 0) by (bit_vector);
}

/// How many formats `celt` more are, when `passed` have been passed.
pub open spec fn available(passed: nat, celt: nat) -> nat {
    if celt < 2 - passed {
        celt
    } else {
        (2 - passed) as nat
    }
}

/// The formats that follow the first `passed`: `celt` of them, or as many as are left.
pub open spec fn handed(preferred: u16, passed: nat, celt: nat) -> Seq<FormatEtc> {
    offered(preferred).subrange(passed as int, (passed + available(passed, celt)) as int)
}

/// Asking twice hands out what asking once for the sum would have.
pub proof fn enumeration_adds_up(preferred: u16, passed: nat, a: nat, b: nat)
    requires
        passed <= 2,
    ensures
        handed(preferred, passed, a) + handed(preferred, passed + available(passed, a), b)
            == handed(preferred, passed, a + b),
        handed(preferred, 0, 2) == offered(preferred),
{
    assert(handed(preferred, passed, a) + handed(preferred, passed + available(passed, a), b)
        == handed(preferred, passed, a + b));
    assert(handed(preferred, 0, 2) == offered(preferred));
}

/// Goes through the formats on offer.
pub struct FileFormatEnum {
    pos: u32,
}

impl FileFormatEnum {
    #[verifier::type_invariant]
    spec fn in_range(self) -> bool {
        self.pos <= 2
    }

    /// How many formats have been passed.
    pub closed spec fn passed(self) -> nat {
        self.pos as nat
    }

    /// Starts before the first format.
    pub fn new() -> (r: FileFormatEnum)
        ensures
            r.passed() == 0,
    {
        FileFormatEnum { pos: 0 }
    }

    /// Hands out the next `celt` formats, or as many as are left, and says
    /// whether they were all there.  Without a place to put them nothing happens.
    pub fn next(&mut self, celt: u32, has_buffer: bool, preferred: u16) -> (r: (
        Vec<FormatEtc>,
        u32,
    ))
        ensures
            old(self).passed() <= 2,
            !has_buffer ==> r.0@ == Seq::<FormatEtc>::empty() && r.1 == E_INVALIDARG
                && final(self).passed() == old(self).passed(),
            has_buffer ==> {
                let n = available(old(self).passed(), celt as nat);
                &&& r.0@ == handed(preferred, old(self).passed(), celt as nat)
                &&& final(self).passed() == old(self).passed() + n
                &&& r.1 == if n == celt {
                    S_OK
                } else {
                    S_FALSE
                }
            },
    {
        proof {
            use_type_invariant(&*self);
        }
        let mut formats: Vec<FormatEtc> = Vec::new();
        if !has_buffer {
            return (formats, E_INVALIDARG);
        }
        let ghost start = self.pos;
        let mut n: u32 = 0;
        let mut pos: u32 = self.pos;
        while n < celt && pos < 2
            invariant
                start <= pos <= 2,
                n <= celt,
                pos == start + n,
                formats@ == offered(preferred).subrange(start as int, pos as int),
            decreases 2 - pos,
        {
            match format_at(pos, preferred) {
                Some(fmt) => formats.push(fmt),
                None => {},
            }
            pos += 1;
            n += 1;
        }
        self.pos = pos;
        (
            formats,
            if n == celt {
                S_OK
            } else {
                S_FALSE
            },
        )
    }

    /// Passes over `celt` formats, or over all that are left; says whether there
    /// were as many.
    pub fn skip(&mut self, celt: u32) -> (r: Result<(), u32>)
        ensures
            old(self).passed() <= 2,
            final(self).passed() == old(self).passed() + available(
                old(self).passed(),
                celt as nat,
            ),
            r == if celt <= 2 - old(self).passed() {
                Ok(())
            } else {
                Err::<(), u32>(S_FALSE)
            },
    {
        proof {
            use_type_invariant(&*self);
        }
        let remain: u32 = 2 - self.pos;
        let skipped: u32 = if remain < celt {
            remain
        } else {
            celt
        };
        self.pos = self.pos + skipped;
        if skipped == celt {
            Ok(())
        } else {
            Err(S_FALSE)
        }
    }

    /// Starts over.
    pub fn reset(&mut self)
        ensures
            final(self).passed() == 0,
    {
        self.pos = 0;
    }

    /// A second one that has come as far.
    pub fn duplicate(&self) -> (r: FileFormatEnum)
        ensures
            r.passed() == self.passed(),
    {
        proof {
            use_type_invariant(self);
        }
        FileFormatEnum { pos: self.pos }
    }
}

/// A number as four bytes, the least significant first.
pub open spec fn le32(n: u32) -> Seq<u8> {
    seq![
        (n % 256) as u8,
        (n / 256 % 256) as u8,
        (n / 0x1_0000 % 256) as u8,
        (n / 0x100_0000) as u8,
    ]
}

/// Numbers as two bytes each, the least significant first.
pub open spec fn le16_all(u: Seq<u16>) -> Seq<u8> {
    Seq::new(
        2 * u.len(),
        |i: int|
            if i % 2 == 0 {
                (u[i / 2] % 256) as u8
            } else {
                (u[i / 2] / 256) as u8
            },
    )
}

/// Paths one behind the other, a zero behind each.
pub open spec fn path_units(paths: Seq<Seq<char>>) -> Seq<u16>
    decreases paths.len(),
{
    if paths.len() == 0 {
        Seq::empty()
    } else {
        path_units(paths.drop_last()) + utf16(paths.last()).push(0)
    }
}

/// A list of files: a header that says where the list begins and that it is in
/// UTF-16, then the paths, a zero behind each and another at the end.
pub open spec fn hdrop_bytes(paths: Seq<Seq<char>>) -> Seq<u8> {
    le32(DROPFILES_SIZE) + le32(0) + le32(0) + le32(0) + le32(1) + le16_all(
        path_units(paths).push(0),
    )
}

/// How many units come before the first zero.
pub open spec fn first_zero(u: Seq<u16>) -> nat
    decreases u.len(),
{
    if u.len() == 0 || u[0] == 0 {
        0
    } else {
        1 + first_zero(u.skip(1))
    }
}

/// The list as a reader takes it apart: texts up to a zero, until one is empty.
pub open spec fn listed(u: Seq<u16>) -> Seq<Seq<u16>>
    decreases u.len(),
{
    let n = first_zero(u);
    if n == 0 || n >= u.len() {
        Seq::empty()
    } else {
        seq![u.take(n as int)] + listed(u.skip((n + 1) as int))
    }
}

proof fn lemma_first_zero(t: Seq<u16>, rest: Seq<u16>)
    requires
        forall|i: int| 0 <= i < t.len() ==> t[i] != 0,
    ensures
        first_zero(t.push(0) + rest) == t.len(),
    decreases t.len(),
{
    let u = t.push(0) + rest;
    if t.len() > 0 {
        assert(u.skip(1) == t.skip(1).push(0) + rest);
        lemma_first_zero(t.skip(1), rest);
        assert(u[0] == t[0]);
    } else {
        assert(u[0] == 0);
    }
}

proof fn lemma_path_units_front(paths: Seq<Seq<char>>)
    requires
        paths.len() > 0,
    ensures
        path_units(paths) == utf16(paths.first()).push(0) + path_units(paths.drop_first()),
    decreases paths.len(),
{
    if paths.len() == 1 {
        assert(paths.drop_last() == Seq::<Seq<char>>::empty());
        assert(paths.drop_first() == Seq::<Seq<char>>::empty());
        assert(path_units(Seq::<Seq<char>>::empty()) == Seq::<u16>::empty());
    } else {
        lemma_path_units_front(paths.drop_last());
        assert(paths.drop_last().drop_first() == paths.drop_first().drop_last());
        assert(paths.drop_first().last() == paths.last());
        assert(paths.drop_last().first() == paths.first());
    }
}

proof fn lemma_listed(paths: Seq<Seq<char>>)
    requires
        forall|i: int| 0 <= i < paths.len() ==> (#[trigger] paths[i]).len() > 0,
        forall|i: int, k: int|
            0 <= i < paths.len() && 0 <= k < paths[i].len() ==> #[trigger] paths[i][k] != '\0',
    ensures
        listed(path_units(paths).push(0)) == paths.map_values(|p: Seq<char>| utf16(p)),
    decreases paths.len(),
{
    let u = path_units(paths).push(0);
    if paths.len() == 0 {
        assert(u[0] == 0);
        assert(listed(u) == Seq::<Seq<u16>>::empty());
    } else {
        let p = paths.first();
        let t = utf16(p);
        let tail = paths.drop_first();
        assert forall|i: int, k: int|
            0 <= i < tail.len() && 0 <= k < tail[i].len() implies #[trigger] tail[i][k]
            != '\0' by {
            assert(tail[i] == paths[i + 1]);
            assert(paths[i + 1][k] != '\0');
        }
        lemma_listed(tail);
        lemma_path_units_front(paths);
        let rest = path_units(tail).push(0);
        assert(u == t.push(0) + rest);
        assert forall|k: int| 0 <= k < p.len() implies p[k] != '\0' by {
            assert(paths[0][k] != '\0');
        }
        assert forall|i: int| 0 <= i < t.len() implies t[i] != 0 by {
            encoding_adds_no_zero(p, i);
        }
        lemma_first_zero(t, rest);
        assert(t.len() > 0) by {
            assert(paths[0].len() > 0);
        }
        assert(u.take(t.len() as int) == t);
        assert(u.skip((t.len() + 1) as int) == rest);
        assert(paths.map_values(|p: Seq<char>| utf16(p)) == seq![t] + tail.map_values(
            |p: Seq<char>| utf16(p),
        ));
    }
}

/// The paths in a block of memory, as a reader takes it apart: the list begins
/// where the header says.
pub open spec fn units_in(block: Seq<u8>) -> Seq<Seq<u16>> {
    let at = u32_at(block, 0);
    listed(u16s_at(block, at, ((block.len() - at) / 2) as nat))
}

/// The files in a block of memory.
pub open spec fn files_in(block: Seq<u8>) -> Seq<Seq<char>> {
    units_in(block).map_values(|t: Seq<u16>| utf16_lossy(t))
}

/// A reader finds in the block of memory the paths that were put into it, in
/// their order, unless one is empty or holds a zero.
pub proof fn reader_finds_the_paths(paths: Seq<Seq<char>>)
    requires
        forall|i: int| 0 <= i < paths.len() ==> (#[trigger] paths[i]).len() > 0,
        forall|i: int, k: int|
            0 <= i < paths.len() && 0 <= k < paths[i].len() ==> #[trigger] paths[i][k] != '\0',
    ensures
        files_in(hdrop_bytes(paths)) == paths,
{
    let block = hdrop_bytes(paths);
    let u = path_units(paths).push(0);
    assert(u32_at(block, 0) == 20);
    assert(u16s_at(block, 20, u.len()) == u) by {
        assert forall|k: int| 0 <= k < u.len() implies u16s_at(block, 20, u.len())[k]
            == #[trigger] u[k] by {
            assert(block[20 + 2 * k] == le16_all(u)[2 * k]);
            assert(block[20 + 2 * k + 1] == le16_all(u)[2 * k + 1]);
        }
    }
    lemma_listed(paths);
    let found = listed(u).map_values(|t: Seq<u16>| utf16_lossy(t));
    assert forall|i: int| 0 <= i < paths.len() implies found[i] == #[trigger] paths[i] by {
        decoding_undoes_encoding(paths[i]);
    }
    assert(found == paths);
}

fn append_le32(out: &mut Vec<u8>, n: u32)
    ensures
        final(out)@ == old(out)@ + le32(n),
{
    out.push((n % 256) as u8);
    out.push((n / 256 % 256) as u8);
    out.push((n / 0x1_0000 % 256) as u8);
    out.push((n / 0x100_0000) as u8);
}

/// The block of memory that holds a list of files.
pub fn build_hdrop(paths: &Vec<String>) -> (r: Vec<u8>)
    ensures
        r@ == hdrop_bytes(texts(paths@)),
{
    let mut units: Vec<u16> = Vec::new();
    let mut i: usize = 0;
    while i < paths.len()
        invariant
            i <= paths@.len(),
            units@ == path_units(texts(paths@).take(i as int)),
        decreases paths@.len() - i,
    {
        let ghost before = units@;
        append_utf16(&mut units, paths[i].as_str());
        units.push(0);
        proof {
            let t = texts(paths@);
            assert(t.take(i + 1).drop_last() == t.take(i as int));
            assert(units@ == before + utf16(paths@[i as int]@).push(0));
        }
        i += 1;
    }
    assert(texts(paths@).take(i as int) == texts(paths@));
    units.push(0);
    let mut out: Vec<u8> = Vec::new();
    append_le32(&mut out, DROPFILES_SIZE);
    append_le32(&mut out, 0);
    append_le32(&mut out, 0);
    append_le32(&mut out, 0);
    append_le32(&mut out, 1);
    let ghost header = out@;
    let mut k: usize = 0;
    while k < units.len()
        invariant
            k <= units@.len(),
            out@ == header + le16_all(units@.take(k as int)),
        decreases units@.len() - k,
    {
        let u: u16 = units[k];
        out.push((u % 256) as u8);
        out.push((u / 256) as u8);
        assert(le16_all(units@.take(k + 1)) == le16_all(units@.take(k as int)).push(
            (u % 256) as u8,
        ).push((u / 256) as u8));
        k += 1;
    }
    assert(units@.take(k as int) == units@);
    assert(header == le32(DROPFILES_SIZE) + le32(0) + le32(0) + le32(0) + le32(1));
    out
}

/// The block of memory that holds a drop effect.
pub fn build_drop_effect(effect: u32) -> (r: Vec<u8>)
    ensures
        r@ == le32(effect),
{
    let mut out: Vec<u8> = Vec::new();
    append_le32(&mut out, effect);
    assert(out@ == le32(effect));
    out
}

/// The data that dragged files give in the format `fmt`, if they do: the list
/// of the files, or that they are best moved.
pub open spec fn data_in(
    paths: Seq<Seq<char>>,
    fmt: Option<FormatEtc>,
    preferred: u16,
) -> Option<Seq<u8>> {
    match fmt {
        Some(f) if supported(f, preferred) => Some(
            if f.cf_format == CF_HDROP {
                hdrop_bytes(paths)
            } else {
                le32(DROPEFFECT_MOVE)
            },
        ),
        _ => None,
    }
}

/// Every format that is listed gives data.
pub proof fn listed_formats_give_data(paths: Seq<Seq<char>>, preferred: u16, i: int)
    requires
        0 <= i < offered(preferred).len(),
    ensures
        data_in(paths, Some(offered(preferred)[i]), preferred) is Some,
{
    offered_formats_are_supported(preferred, i);
}

/// The files that are being dragged.
pub struct FileDataObject {
    pub paths: Vec<String>,
}

impl FileDataObject {
    /// The data in the format `fmt`: the files, or that they are best moved.
    pub fn get_data(&self, fmt: Option<FormatEtc>, preferred: u16) -> (r: Result<Vec<u8>, u32>)
        ensures
            match data_in(texts(self.paths@), fmt, preferred) {
                Some(bytes) => r is Ok && r->Ok_0@ == bytes,
                None => r == Err::<Vec<u8>, u32>(DATA_E_FORMATETC),
            },
    {
        match fmt {
            None => Err(DATA_E_FORMATETC),
            Some(f) => if !is_supported_get_format(&f, preferred) {
                Err(DATA_E_FORMATETC)
            } else if f.cf_format == CF_HDROP {
                Ok(build_hdrop(&self.paths))
            } else {
                Ok(build_drop_effect(DROPEFFECT_MOVE))
            },
        }
    }

    /// Whether there is data in the format `fmt`.
    pub fn query_get_data(&self, fmt: Option<FormatEtc>, preferred: u16) -> (r: u32)
        ensures
            r == if data_in(texts(self.paths@), fmt, preferred) is Some {
                S_OK
            } else {
                DATA_E_FORMATETC
            },
    {
        match fmt {
            None => DATA_E_FORMATETC,
            Some(f) => if is_supported_get_format(&f, preferred) {
                S_OK
            } else {
                DATA_E_FORMATETC
            },
        }
    }

    /// The formats that can be read; none can be written.
    pub fn enum_format_etc(&self, direction: u32) -> (r: Result<FileFormatEnum, u32>)
        ensures
            direction == DATADIR_GET ==> r is Ok && r->Ok_0.passed() == 0,
            direction != DATADIR_GET ==> r == Err::<FileFormatEnum, u32>(E_NOTIMPL),
    {
        if direction != DATADIR_GET {
            Err(E_NOTIMPL)
        } else {
            Ok(FileFormatEnum::new())
        }
    }
}

/// Decides how a drag goes on.
pub struct FileDropSource;

impl FileDropSource {
    /// Escape cancels; letting go of the left button drops; else the drag goes on.
    pub fn query_continue_drag(&self, escape_pressed: bool, key_state: u32) -> (r: u32)
        ensures
            r == if escape_pressed {
                DRAGDROP_S_CANCEL
            } else if key_state & MK_LBUTTON != MK_LBUTTON {
                DRAGDROP_S_DROP
            } else {
                S_OK
            },
            escape_pressed <==> r == 0x4_0101,
            !escape_pressed && key_state % 2 == 0 <==> r == 0x4_0100,
            !escape_pressed && key_state % 2 == 1 <==> r == 0,
    {
        assert(key_state & 1 == key_state % 2) by (bit_vector);
        if escape_pressed {
            DRAGDROP_S_CANCEL
        } else if key_state & MK_LBUTTON != MK_LBUTTON {
            DRAGDROP_S_DROP
        } else {
            S_OK
        }
    }

    /// The pointer is the system's own, whatever the effect.
    pub fn give_feedback(&self, effect: u32) -> (r: u32)
        ensures
            r == DRAGDROP_S_USEDEFAULTCURSORS,
    {
        DRAGDROP_S_USEDEFAULTCURSORS
    }
}

/// Two formats are on offer, the list of files first: both are the whole content
/// in global memory.
pub proof fn two_formats_are_offered(preferred: u16, i: int)
    requires
        0 <= i < offered(preferred).len(),
    ensures
        offered(preferred).len() == 2,
        offered(preferred)[0].cf_format == 15,
        offered(preferred)[1].cf_format == preferred,
        offered(preferred)[i].aspect == 1,
        offered(preferred)[i].lindex == -1,
        offered(preferred)[i].tymed == 1,
{
}

/// A format can be had if and only if it is one of the two on offer but for its
/// media, of which one has to be global memory; which others there are besides
/// does not matter.
pub proof fn what_can_be_had(fmt: FormatEtc, preferred: u16)
    ensures
        supported(fmt, preferred) <==> fmt.tymed % 2 == 1 && ((FormatEtc { tymed: 1, ..fmt })
            == offered(preferred)[0] || (FormatEtc { tymed: 1, ..fmt }) == offered(preferred)[1]),
{
    let t = fmt.tymed;
    assert(t & 1 == t % 2) by (bit_vector);
}

/// As many formats come as are asked for, or as many as are left if those are
/// fewer: the ones that follow, in order.
pub proof fn formats_come_in_order(preferred: u16, passed: nat, celt: nat, i: int)
    requires
        passed <= 2,
        0 <= i < available(passed, celt),
    ensures
        available(passed, celt) <= celt,
        passed + available(passed, celt) <= 2,
        available(passed, celt) == celt || passed + available(passed, celt) == 2,
        handed(preferred, passed, celt).len() == available(passed, celt),
        handed(preferred, passed, celt)[i] == offered(preferred)[passed + i],
{
}

/// Numbers are written with their least significant byte first.
pub proof fn least_significant_byte_comes_first(n: u32, u: Seq<u16>, k: int)
    requires
        0 <= k < u.len(),
    ensures
        le32(n).len() == 4,
        le32(n)[0] + 256 * le32(n)[1] + 65536 * le32(n)[2] + 16777216 * le32(n)[3] == n,
        le16_all(u).len() == 2 * u.len(),
        le16_all(u)[2 * k] + 256 * le16_all(u)[2 * k + 1] == u[k],
{
}

/// The units of paths follow one another in the order of the paths, a zero behind
/// each.
pub proof fn paths_follow_one_another(a: Seq<Seq<char>>, b: Seq<Seq<char>>, p: Seq<char>)
    ensures
        path_units(a + b) == path_units(a) + path_units(b),
        path_units(seq![p]) == utf16(p).push(0),
    decreases b.len(),
{
    if b.len() == 0 {
        assert(a + b == a);
        assert(path_units(a) + path_units(b) == path_units(a));
    } else {
        paths_follow_one_another(a, b.drop_last(), p);
        assert((a + b).drop_last() == a + b.drop_last());
        assert((a + b).last() == b.last());
        assert(path_units(a + b) == path_units(a) + path_units(b));
    }
    assert(seq![p].drop_last() == Seq::<Seq<char>>::empty());
    assert(path_units(seq![p].drop_last()) == Seq::<u16>::empty());
    assert(path_units(seq![p]) == utf16(p).push(0));
}

/// The block of memory begins with its header: where the list begins, a point
/// that is not used, and that the list is in UTF-16.  Then come the units of the
/// paths, and a zero at the end.
pub proof fn block_has_its_header(paths: Seq<Seq<char>>)
    ensures
        ({
            let b = hdrop_bytes(paths);
            &&& b.len() == 22 + 2 * path_units(paths).len()
            &&& b[0] == 20 && b[16] == 1
            &&& forall|i: int| 1 <= i < 20 && i != 16 ==> #[trigger] b[i] == 0
            &&& forall|k: int|
                0 <= k < path_units(paths).len() ==> b[20 + 2 * k] + 256 * b[20 + 2 * k + 1]
                    == #[trigger] path_units(paths)[k]
            &&& b[b.len() - 2] == 0 && b[b.len() - 1] == 0
        }),
{
    let u = path_units(paths).push(0);
    let b = hdrop_bytes(paths);
    assert forall|k: int| 0 <= k < u.len() implies b[20 + 2 * k] + 256 * b[20 + 2 * k + 1]
        == #[trigger] u[k] by {
        assert(b[20 + 2 * k] == le16_all(u)[2 * k]);
        assert(b[20 + 2 * k + 1] == le16_all(u)[2 * k + 1]);
    }
    assert forall|k: int| 0 <= k < path_units(paths).len() implies b[20 + 2 * k] + 256 * b[20 + 2
        * k + 1] == #[trigger] path_units(paths)[k] by {
        assert(u[k] == path_units(paths)[k]);
    }
    assert(u[u.len() - 1] == 0);
}

/// Data comes in every format that can be had, and in no other: the list of the
/// files in the first one on offer, and in the second that they are best moved.
pub proof fn data_comes_in_what_can_be_had(paths: Seq<Seq<char>>, fmt: FormatEtc, preferred: u16)
    ensures
        data_in(paths, None, preferred) is None,
        data_in(paths, Some(fmt), preferred) is Some <==> supported(fmt, preferred),
        supported(fmt, preferred) && fmt.cf_format == 15 ==> data_in(paths, Some(fmt), preferred)
            == Some(hdrop_bytes(paths)),
        supported(fmt, preferred) && fmt.cf_format != 15 ==> data_in(paths, Some(fmt), preferred)
            == Some(seq![2u8, 0, 0, 0]),
{
    assert(le32(2) == seq![2u8, 0, 0, 0]);
}

/// The codes and masks are those that the system uses.
pub proof fn drag_codes_are_the_systems()
    ensures
        DATADIR_GET == 1 && MK_LBUTTON == 1,
        DROPEFFECT_NONE == 0 && DROPEFFECT_COPY == 1 && DROPEFFECT_MOVE == 2,
        DRAG_EFFECTS == DROPEFFECT_COPY + DROPEFFECT_MOVE,
        S_OK == 0 && S_FALSE == 1,
        E_NOTIMPL == 0x8000_4001 && E_INVALIDARG == 0x8007_0057,
        DATA_E_FORMATETC == 0x8004_0064,
        DRAGDROP_S_DROP == 0x4_0100 && DRAGDROP_S_CANCEL == 0x4_0101,
        DRAGDROP_S_USEDEFAULTCURSORS == 0x4_0102,
{
}

} // verus!
