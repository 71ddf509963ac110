//! Text as the system wants it: UTF-16, decimal numbers, lower case.

use vstd::prelude::*;

verus! {

/// The UTF-16 code units of a character.
pub open spec fn utf16_char(c: char) -> Seq<u16> {
    let n = c as u32;
    if n < 0x1_0000 {
        seq![n as u16]
    } else {
        seq![(0xD800 + (n - 0x1_0000) / 0x400) as u16, (0xDC00 + (n - 0x1_0000) % 0x400) as u16]
    }
}

/// The UTF-16 code units of a text.
pub open spec fn utf16(s: Seq<char>) -> Seq<u16>
    decreases s.len(),
{
    if s.len() == 0 {
        Seq::empty()
    } else {
        utf16_char(s.first()) + utf16(s.drop_first())
    }
}

/// The text that UTF-16 code units stand for.  A surrogate without its partner
/// stands for U+FFFD.
pub open spec fn utf16_lossy(u: Seq<u16>) -> Seq<char>
    decreases u.len(),
{
    if u.len() == 0 {
        Seq::empty()
    } else if !(0xD800 <= u[0] < 0xE000) {
        seq![u[0] as char] + utf16_lossy(u.skip(1))
    } else if u[0] < 0xDC00 && u.len() > 1 && 0xDC00 <= u[1] < 0xE000 {
        seq![(0x1_0000 + (u[0] - 0xD800) * 0x400 + (u[1] - 0xDC00)) as char] + utf16_lossy(
            u.skip(2),
        )
    } else {
        seq!['\u{FFFD}'] + utf16_lossy(u.skip(1))
    }
}

/// `String::from_utf16_lossy` decodes UTF-16, with U+FFFD in place of every
/// unpaired surrogate.
pub assume_specification[ String::from_utf16_lossy ](v: &[u16]) -> (r: String)
    ensures
        r@ == utf16_lossy(v@),
;

proof fn lemma_utf16_push(s: Seq<char>, c: char)
    ensures
        utf16(s.push(c)) == utf16(s) + utf16_char(c),
    decreases s.len(),
{
    if s.len() == 0 {
        assert(s.push(c).drop_first() == Seq::<char>::empty());
        assert(utf16(Seq::<char>::empty()) == Seq::<u16>::empty());
    } else {
        assert(s.push(c).drop_first() == s.drop_first().push(c));
        lemma_utf16_push(s.drop_first(), c);
    }
}

/// Encodes a text in UTF-16, onto the end of `out`.
pub fn append_utf16(out: &mut Vec<u16>, s: &str)
    ensures
        final(out)@ == old(out)@ + utf16(s@),
{
    let ghost start = out@;
    for c in it: s.chars()
        invariant
            it.seq() == s@,
            out@ == start + utf16(s@.take(it.index() as int)),
    {
        proof {
            lemma_utf16_push(s@.take(it.index() as int), c);
            assert(s@.take(it.index() + 1) == s@.take(it.index() as int).push(c));
        }
        let n: u32 = c as u32;
        if n < 0x1_0000 {
            out.push(n as u16);
        } else {
            out.push((0xD800 + (n - 0x1_0000) / 0x400) as u16);
            out.push((0xDC00 + (n - 0x1_0000) % 0x400) as u16);
        }
    }
    assert(s@.take(s@.len() as int) == s@);
}

/// Encodes a text in UTF-16 with a zero behind it.
pub fn wstr(s: &str) -> (r: Vec<u16>)
    ensures
        r@ == utf16(s@).push(0),
{
    let mut out: Vec<u16> = Vec::new();
    append_utf16(&mut out, s);
    assert(out@ == utf16(s@));
    out.push(0);
    out
}

proof fn lemma_decode_char(c: char, rest: Seq<u16>)
    ensures
        utf16_lossy(utf16_char(c) + rest) == seq![c] + utf16_lossy(rest),
        c != '\0' ==> forall|i: int|
            0 <= i < utf16_char(c).len() ==> #[trigger] utf16_char(c)[i] != 0,
{
    let n = c as u32;
    let u = utf16_char(c) + rest;
    if n < 0x1_0000 {
        assert(u.skip(1) == rest);
        assert(u[0] == n);
    } else {
        assert(u.skip(2) == rest);
        assert(u[0] == 0xD800 + (n - 0x1_0000) / 0x400);
        assert(u[1] == 0xDC00 + (n - 0x1_0000) % 0x400);
        assert(0x1_0000 + (u[0] - 0xD800) * 0x400 + (u[1] - 0xDC00) == n);
    }
}

/// Decoding gives back what was encoded.
pub proof fn decoding_undoes_encoding(s: Seq<char>)
    ensures
        utf16_lossy(utf16(s)) == s,
    decreases s.len(),
{
    if s.len() > 0 {
        decoding_undoes_encoding(s.drop_first());
        lemma_decode_char(s.first(), utf16(s.drop_first()));
        assert(seq![s.first()] + s.drop_first() == s);
    }
}

/// A text without a zero character has no zero among its code units.
pub proof fn encoding_adds_no_zero(s: Seq<char>, i: int)
    requires
        forall|k: int| 0 <= k < s.len() ==> s[k] != '\0',
        0 <= i < utf16(s).len(),
    ensures
        utf16(s)[i] != 0,
    decreases s.len(),
{
    if s.len() > 0 {
        let head = utf16_char(s.first());
        lemma_decode_char(s.first(), Seq::empty());
        if i >= head.len() {
            encoding_adds_no_zero(s.drop_first(), i - head.len());
        } else {
            assert(utf16(s)[i] == head[i]);
        }
    }
}

/// What comes before the first zero.
pub open spec fn before_zero(u: Seq<u16>) -> Seq<u16>
    decreases u.len(),
{
    if u.len() == 0 || u[0] == 0 {
        Seq::empty()
    } else {
        seq![u[0]] + before_zero(u.skip(1))
    }
}

/// The text in a buffer that the system has filled: up to the first zero.
pub fn buffer_text(buf: &Vec<u16>) -> (r: String)
    ensures
        r@ == utf16_lossy(before_zero(buf@)),
{
    let mut n: usize = 0;
    assert(buf@.take(0) + before_zero(buf@.skip(0)) == before_zero(buf@)) by {
        assert(buf@.skip(0) == buf@);
    }
    while n < buf.len() && buf[n] != 0
        invariant
            n <= buf@.len(),
            buf@.take(n as int) + before_zero(buf@.skip(n as int)) == before_zero(buf@),
        decreases buf@.len() - n,
    {
        proof {
            let rest = buf@.skip(n as int);
            assert(rest.skip(1) == buf@.skip(n + 1));
            assert(buf@.take(n + 1) == buf@.take(n as int) + seq![rest[0]]);
            assert(buf@.take(n as int) + (seq![rest[0]] + before_zero(rest.skip(1))) == buf@.take(
                n + 1,
            ) + before_zero(rest.skip(1)));
        }
        n += 1;
    }
    proof {
        let rest = buf@.skip(n as int);
        assert(before_zero(rest) == Seq::<u16>::empty());
        assert(buf@.take(n as int) + Seq::<u16>::empty() == buf@.take(n as int));
    }
    let units: &[u16] = vstd::slice::slice_subrange(buf.as_slice(), 0, n);
    assert(units@ == buf@.take(n as int));
    String::from_utf16_lossy(units)
}

/// The texts that strings hold.
pub open spec fn texts(v: Seq<String>) -> Seq<Seq<char>> {
    v.map_values(|s: String| s@)
}

/// A digit's character.
pub open spec fn digit(d: nat) -> char {
    (0x30 + d) as char
}

/// A number in decimal, without leading zeros.
pub open spec fn decimal(n: nat) -> Seq<char>
    decreases n,
{
    if n < 10 {
        seq![digit(n)]
    } else {
        decimal(n / 10).push(digit(n % 10))
    }
}

/// Different numbers are written differently.
pub proof fn decimal_is_injective(a: nat, b: nat)
    requires
        decimal(a) == decimal(b),
    ensures
        a == b,
    decreases a,
{
    lemma_decimal_len(a);
    lemma_decimal_len(b);
    assert(decimal(a).last() == digit(a % 10));
    assert(decimal(b).last() == digit(b % 10));
    if a >= 10 && b >= 10 {
        assert(decimal(a).drop_last() == decimal(a / 10));
        assert(decimal(b).drop_last() == decimal(b / 10));
        decimal_is_injective(a / 10, b / 10);
    }
}

proof fn lemma_decimal_len(n: nat)
    ensures
        n < 10 ==> decimal(n).len() == 1,
        n >= 10 ==> decimal(n).len() >= 2,
    decreases n,
{
    if n >= 10 {
        lemma_decimal_len(n / 10);
    }
}

fn digit_text(d: u64) -> (r: &'static str)
    requires
        d < 10,
    ensures
        r@ == seq![digit(d as nat)],
{
    proof {
        reveal_strlit("0");
        reveal_strlit("1");
        reveal_strlit("2");
        reveal_strlit("3");
        reveal_strlit("4");
        reveal_strlit("5");
        reveal_strlit("6");
        reveal_strlit("7");
        reveal_strlit("8");
        reveal_strlit("9");
    }
    if d == 0 {
        "0"
    } else if d == 1 {
        "1"
    } else if d == 2 {
        "2"
    } else if d == 3 {
        "3"
    } else if d == 4 {
        "4"
    } else if d == 5 {
        "5"
    } else if d == 6 {
        "6"
    } else if d == 7 {
        "7"
    } else if d == 8 {
        "8"
    } else {
        "9"
    }
}

/// Writes a number in decimal onto the end of `out`.
pub fn append_decimal(out: &mut String, n: u64)
    ensures
        final(out)@ == old(out)@ + decimal(n as nat),
    decreases n,
{
    if n >= 10 {
        append_decimal(out, n / 10);
    }
    out.append(digit_text(n % 10));
}

/// A text in lower case, as `str::to_lowercase` gives it.
pub uninterp spec fn lowercase(s: Seq<char>) -> Seq<char>;

/// An ASCII character in lower case.
pub open spec fn ascii_lower(c: char) -> char {
    if 'A' <= c <= 'Z' {
        (c as u32 + 32) as char
    } else {
        c
    }
}

/// A text with its ASCII letters in lower case.
pub open spec fn ascii_lowercase(s: Seq<char>) -> Seq<char> {
    s.map_values(|c: char| ascii_lower(c))
}

/// `str::to_lowercase` maps a text to lower case by the rules of Unicode, which
/// on ASCII text change the letters `A` to `Z` and nothing else.
pub assume_specification[ str::to_lowercase ](s: &str) -> (r: String)
    ensures
        r@ == lowercase(s@),
        vstd::utf8::is_ascii_chars(s@) ==> r@ == ascii_lowercase(s@),
;

/// Texts are encoded character by character: what stands for two texts one
/// behind the other is what stands for the one and then for the other.
pub proof fn encoding_goes_character_by_character(a: Seq<char>, b: Seq<char>)
    ensures
        utf16(a + b) == utf16(a) + utf16(b),
    decreases a.len(),
{
    if a.len() == 0 {
        assert(a + b == b);
        assert(utf16(a) + utf16(b) == utf16(b));
    } else {
        assert((a + b).drop_first() == a.drop_first() + b);
        assert((a + b).first() == a.first());
        encoding_goes_character_by_character(a.drop_first(), b);
        assert(utf16(a + b) == utf16(a) + utf16(b));
    }
}

/// A character under U+10000 is one unit, its own number; any other is a pair,
/// of which the first has its upper ten bits above U+10000 and the second its
/// lower ten.
pub proof fn characters_are_one_unit_or_a_pair(c: char)
    ensures
        (c as u32) < 0x1_0000 ==> utf16(seq![c]) == seq![c as u16] && utf16(seq![c])[0] == c as u32,
        (c as u32) >= 0x1_0000 ==> {
            let u = utf16(seq![c]);
            &&& u.len() == 2
            &&& 0xD800 <= u[0] < 0xDC00
            &&& 0xDC00 <= u[1] < 0xE000
            &&& 0x1_0000 + 0x400 * (u[0] - 0xD800) + (u[1] - 0xDC00) == c as u32
        },
{
    assert(seq![c].drop_first() == Seq::<char>::empty());
    assert(utf16(Seq::<char>::empty()) == Seq::<u16>::empty());
    assert(utf16(seq![c]) == utf16_char(c));
}

/// A buffer is read up to its first zero and not beyond: what stands before it is
/// read as a whole, and a buffer without a zero is too.
pub proof fn buffer_is_read_up_to_a_zero(u: Seq<u16>, rest: Seq<u16>)
    requires
        forall|i: int| 0 <= i < u.len() ==> u[i] != 0,
    ensures
        before_zero(u.push(0) + rest) == u,
        before_zero(u) == u,
    decreases u.len(),
{
    if u.len() == 0 {
        assert((u.push(0) + rest)[0] == 0);
        assert(before_zero(u.push(0) + rest) == u);
    } else {
        let t = u.skip(1);
        buffer_is_read_up_to_a_zero(t, rest);
        assert((u.push(0) + rest).skip(1) == t.push(0) + rest);
        assert((u.push(0) + rest)[0] == u[0]);
        assert(seq![u[0]] + t == u);
    }
}

/// The number that decimal digits stand for.
pub open spec fn number_in(digits: Seq<char>) -> int
    decreases digits.len(),
{
    if digits.len() == 0 {
        0
    } else {
        10 * number_in(digits.drop_last()) + (digits.last() as u32 - '0' as u32)
    }
}

/// A number in decimal is made of digits, does not begin with a zero unless it
/// is one, and stands for the number.
pub proof fn decimal_stands_for_the_number(n: nat)
    ensures
        decimal(n).len() > 0,
        forall|i: int| 0 <= i < decimal(n).len() ==> '0' <= #[trigger] decimal(n)[i] <= '9',
        n > 0 ==> decimal(n)[0] != '0',
        n == 0 ==> decimal(n) == seq!['0'],
        number_in(decimal(n)) == n,
    decreases n,
{
    if n < 10 {
        assert(decimal(n).drop_last() == Seq::<char>::empty());
        assert(number_in(Seq::<char>::empty()) == 0);
    } else {
        decimal_stands_for_the_number(n / 10);
        assert(decimal(n).drop_last() == decimal(n / 10));
        assert(decimal(n)[0] == decimal(n / 10)[0]);
        assert forall|i: int| 0 <= i < decimal(n).len() implies '0' <= #[trigger] decimal(n)[i]
            <= '9' by {
            if i < decimal(n / 10).len() {
                assert(decimal(n)[i] == decimal(n / 10)[i]);
            }
        }
    }
}

/// Lower case changes the letters from `A` to `Z` into those from `a` to `z`, in
/// their order, and nothing else; it leaves the length.
pub proof fn lower_case_changes_letters_only(s: Seq<char>, i: int)
    requires
        0 <= i < s.len(),
    ensures
        ascii_lowercase(s).len() == s.len(),
        'A' <= s[i] <= 'Z' ==> ascii_lowercase(s)[i] as u32 - 'a' as u32 == s[i] as u32
            - 'A' as u32,
        !('A' <= s[i] <= 'Z') ==> ascii_lowercase(s)[i] == s[i],
        ascii_lowercase(ascii_lowercase(s)) == ascii_lowercase(s),
{
    assert(ascii_lowercase(ascii_lowercase(s)) == ascii_lowercase(s));
}

/// The texts are those of the strings, one for each and in order.
pub proof fn each_string_gives_its_text(v: Seq<String>)
    ensures
        texts(v).len() == v.len(),
        forall|i: int| 0 <= i < v.len() ==> texts(v)[i] == (#[trigger] v[i])@,
{
}

} // verus!
