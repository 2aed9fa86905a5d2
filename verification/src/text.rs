//! Character-level text operations: Unicode trimming, ASCII lowercasing and
//! suffix tests, each stated over `Seq<char>`.
use vstd::prelude::*;
use vstd::utf8::encode_utf8;

verus! {

/// The Unicode `White_Space` property (what `char::is_whitespace` tests).
pub open spec fn is_space(c: char) -> bool {
    ||| c == ' '
    ||| ('\t' <= c && c <= '\r')
    ||| c == '\u{85}'
    ||| c == '\u{a0}'
    ||| c == '\u{1680}'
    ||| ('\u{2000}' <= c && c <= '\u{200a}')
    ||| c == '\u{2028}'
    ||| c == '\u{2029}'
    ||| c == '\u{202f}'
    ||| c == '\u{205f}'
    ||| c == '\u{3000}'
}

/// `s` without its leading white space.
pub open spec fn trim_start(s: Seq<char>) -> Seq<char>
    decreases s.len(),
{
    if s.len() > 0 && is_space(s[0]) {
        trim_start(s.drop_first())
    } else {
        s
    }
}

/// `s` without its trailing white space.
pub open spec fn trim_end(s: Seq<char>) -> Seq<char>
    decreases s.len(),
{
    if s.len() > 0 && is_space(s.last()) {
        trim_end(s.drop_last())
    } else {
        s
    }
}

/// `s` without leading and trailing white space (what `str::trim` returns).
pub open spec fn trim(s: Seq<char>) -> Seq<char> {
    trim_end(trim_start(s))
}

/// ASCII lowercasing of one character; every other character is kept.
pub open spec fn lower_char(c: char) -> char {
    if 'A' <= c && c <= 'Z' {
        ((c as u32) + 32) as char
    } else {
        c
    }
}

/// ASCII lowercasing of a string (what `str::to_ascii_lowercase` returns).
pub open spec fn ascii_lowercase(s: Seq<char>) -> Seq<char> {
    s.map_values(|c: char| lower_char(c))
}

/// `s` ends with `suffix`.
pub open spec fn ends_with(s: Seq<char>, suffix: Seq<char>) -> bool {
    suffix.len() <= s.len() && s.subrange(s.len() - suffix.len(), s.len() as int) == suffix
}

/// Number of bytes of the UTF-8 encoding of `c`.
pub open spec fn utf8_width(c: char) -> nat {
    if (c as u32) < 0x80 {
        1
    } else if (c as u32) < 0x800 {
        2
    } else if (c as u32) < 0x10000 {
        3
    } else {
        4
    }
}

/// Number of bytes of the UTF-8 encoding of `s`.
pub open spec fn utf8_size(s: Seq<char>) -> nat
    decreases s.len(),
{
    if s.len() == 0 {
        0
    } else {
        utf8_width(s[0]) + utf8_size(s.drop_first())
    }
}

pub proof fn lemma_utf8_size(s: Seq<char>)
    ensures
        encode_utf8(s).len() == utf8_size(s),
    decreases s.len(),
{
    if s.len() > 0 {
        lemma_utf8_size(s.drop_first());
        vstd::utf8::char_is_scalar(s[0]);
    }
}

/// The length of `s` in UTF-8 bytes.
pub fn utf8_len(s: &str) -> (r: u128)
    ensures
        r == encode_utf8(s@).len(),
{
    let n = s.unicode_len();
    let mut i: usize = n;
    let mut total: u128 = 0;
    assert(s@.skip(n as int) =~= Seq::<char>::empty());
    while i > 0
        invariant
            n == s@.len(),
            i <= n,
            total == utf8_size(s@.skip(i as int)),
            total <= 4 * (n - i),
        decreases i,
    {
        let c = s.get_char(i - 1);
        let u = c as u32;
        let w: u128 = if u < 0x80 {
            1
        } else if u < 0x800 {
            2
        } else if u < 0x10000 {
            3
        } else {
            4
        };
        assert(s@.skip(i - 1).drop_first() =~= s@.skip(i as int));
        total = total + w;
        i = i - 1;
    }
    proof {
        lemma_utf8_size(s@);
    }
    assert(s@.skip(0) =~= s@);
    total
}

pub open spec fn starts_unspaced(x: Seq<char>) -> bool {
    x.len() == 0 || !is_space(x[0])
}

pub open spec fn ends_unspaced(x: Seq<char>) -> bool {
    x.len() == 0 || !is_space(x.last())
}

proof fn lemma_trim_start_unspaced(s: Seq<char>)
    ensures
        starts_unspaced(trim_start(s)),
    decreases s.len(),
{
    if s.len() > 0 && is_space(s[0]) {
        lemma_trim_start_unspaced(s.drop_first());
    }
}

proof fn lemma_trim_end_prefix(s: Seq<char>)
    ensures
        ends_unspaced(trim_end(s)),
        trim_end(s).len() <= s.len(),
        trim_end(s) == s.subrange(0, trim_end(s).len() as int),
    decreases s.len(),
{
    if s.len() > 0 && is_space(s.last()) {
        lemma_trim_end_prefix(s.drop_last());
        assert(s.drop_last().subrange(0, trim_end(s).len() as int) =~= s.subrange(
            0,
            trim_end(s).len() as int,
        ));
    } else {
        assert(s.subrange(0, s.len() as int) =~= s);
    }
}

/// Trimming twice is trimming once.
pub proof fn lemma_trim_idempotent(s: Seq<char>)
    ensures
        trim(trim(s)) == trim(s),
{
    let a = trim_start(s);
    lemma_trim_start_unspaced(s);
    lemma_trim_end_prefix(a);
    let t = trim_end(a);
    if t.len() > 0 {
        assert(t[0] == a[0]);
    }
    assert(starts_unspaced(t));
    assert(trim_start(t) == t);
    assert(trim_end(t) == t);
}

/// Among ASCII characters, white space is exactly the space, tab, line
/// feed, vertical tab, form feed and carriage return; no visible ASCII
/// character (`!` to `~`) is white space.
pub proof fn law_ascii_white_space(c: char)
    ensures
        (c as u32) < 0x80 ==> (is_space(c) <==> (c == ' ' || c == '\t' || c == '\n' || c
            == '\u{b}' || c == '\u{c}' || c == '\r')),
        ('!' <= c && c <= '~') ==> !is_space(c),
{
}

/// Trimming keeps a text that starts and ends with a character that is not
/// white space.
pub proof fn law_trim_keeps_unspaced_ends(s: Seq<char>)
    requires
        s.len() > 0,
        !is_space(s[0]),
        !is_space(s.last()),
    ensures
        trim(s) == s,
{
}

/// Trimming removes white space, and only white space, from the two ends:
/// the result is a contiguous piece of the text, everything before and
/// after it is white space, and it neither starts nor ends with white space.
pub proof fn law_trim_removes_only_end_space(s: Seq<char>)
    ensures
        exists|i: int, j: int|
            0 <= i <= j <= s.len() && trim(s) == s.subrange(i, j) && (forall|k: int|
                0 <= k < i ==> is_space(#[trigger] s[k])) && (forall|k: int|
                j <= k < s.len() ==> is_space(#[trigger] s[k])),
        starts_unspaced(trim(s)),
        ends_unspaced(trim(s)),
{
    lemma_trim_start_shape(s);
    let i = s.len() - trim_start(s).len();
    let a = trim_start(s);
    lemma_trim_end_shape(a);
    lemma_trim_end_prefix(a);
    lemma_trim_idempotent(s);
    let t = trim_end(a);
    let j = i + t.len();
    assert(t =~= s.subrange(i, j)) by {
        assert(a =~= s.subrange(i, s.len() as int));
        assert(t == a.subrange(0, t.len() as int));
    }
    assert forall|k: int| j <= k < s.len() implies is_space(#[trigger] s[k]) by {
        assert(s[k] == a[k - i]);
    }
    lemma_trim_start_unspaced(s);
    lemma_trim_end_prefix(a);
    if t.len() > 0 {
        assert(t[0] == a[0]);
    }
}

proof fn lemma_trim_start_shape(s: Seq<char>)
    ensures
        trim_start(s).len() <= s.len(),
        trim_start(s) == s.subrange(s.len() - trim_start(s).len(), s.len() as int),
        forall|k: int| 0 <= k < s.len() - trim_start(s).len() ==> is_space(#[trigger] s[k]),
    decreases s.len(),
{
    if s.len() > 0 && is_space(s[0]) {
        let d = s.drop_first();
        lemma_trim_start_shape(d);
        assert(d.subrange(d.len() - trim_start(d).len(), d.len() as int) =~= s.subrange(
            s.len() - trim_start(s).len(),
            s.len() as int,
        ));
        assert forall|k: int| 0 <= k < s.len() - trim_start(s).len() implies is_space(
            #[trigger] s[k],
        ) by {
            if k > 0 {
                assert(s[k] == d[k - 1]);
            }
        }
    } else {
        assert(s.subrange(0, s.len() as int) =~= s);
    }
}

proof fn lemma_trim_end_shape(s: Seq<char>)
    ensures
        trim_end(s).len() <= s.len(),
        forall|k: int| trim_end(s).len() <= k < s.len() ==> is_space(#[trigger] s[k]),
    decreases s.len(),
{
    if s.len() > 0 && is_space(s.last()) {
        let d = s.drop_last();
        lemma_trim_end_shape(d);
        assert forall|k: int| trim_end(s).len() <= k < s.len() implies is_space(
            #[trigger] s[k],
        ) by {
            if k < s.len() - 1 {
                assert(s[k] == d[k]);
            }
        }
    }
}

/// ASCII lowercasing turns each capital letter into the small letter of the
/// same place in the alphabet and leaves every other character as it is;
/// it keeps the length and is idempotent.
pub proof fn law_lowercasing(c: char, s: Seq<char>)
    ensures
        ('A' <= c && c <= 'Z') ==> ('a' <= lower_char(c) && lower_char(c) <= 'z' && (lower_char(
            c,
        ) as int) - ('a' as int) == (c as int) - ('A' as int)),
        !('A' <= c && c <= 'Z') ==> lower_char(c) == c,
        ascii_lowercase(s).len() == s.len(),
        ascii_lowercase(ascii_lowercase(s)) == ascii_lowercase(s),
{
    assert(ascii_lowercase(ascii_lowercase(s)) =~= ascii_lowercase(s));
}

/// A text ends with `suffix` exactly when it is something followed by
/// `suffix`.
pub proof fn law_ends_with(p: Seq<char>, suffix: Seq<char>, s: Seq<char>)
    ensures
        ends_with(p + suffix, suffix),
        ends_with(s, suffix) ==> s == s.subrange(0, s.len() - suffix.len()) + suffix,
{
    assert((p + suffix).subrange(p.len() as int, (p + suffix).len() as int) =~= suffix);
    if ends_with(s, suffix) {
        assert(s =~= s.subrange(0, s.len() - suffix.len()) + suffix);
    }
}

pub fn is_space_char(c: char) -> (r: bool)
    ensures
        r == is_space(c),
{
    c == ' ' || ('\t' <= c && c <= '\r') || c == '\u{85}' || c == '\u{a0}' || c == '\u{1680}'
        || ('\u{2000}' <= c && c <= '\u{200a}') || c == '\u{2028}' || c == '\u{2029}' || c
        == '\u{202f}' || c == '\u{205f}' || c == '\u{3000}'
}

pub fn lower(c: char) -> (r: char)
    ensures
        r == lower_char(c),
{
    if 'A' <= c && c <= 'Z' {
        ((c as u8) + 32) as char
    } else {
        c
    }
}

/// `s` with leading and trailing white space removed.
pub fn trim_str(s: &str) -> (r: &str)
    ensures
        r@ == trim(s@),
{
    let n = s.unicode_len();
    let mut lo: usize = 0;
    assert(s@.subrange(0, n as int) =~= s@);
    while lo < n && is_space_char(s.get_char(lo))
        invariant
            n == s@.len(),
            lo <= n,
            trim_start(s@) == trim_start(s@.subrange(lo as int, n as int)),
        decreases n - lo,
    {
        assert(s@.subrange(lo as int, n as int).drop_first() =~= s@.subrange(lo + 1, n as int));
        lo = lo + 1;
    }
    let ghost u = s@.subrange(lo as int, n as int);
    assert(trim_start(u) == u);
    let mut hi: usize = n;
    while hi > lo && is_space_char(s.get_char(hi - 1))
        invariant
            n == s@.len(),
            lo <= hi <= n,
            u == s@.subrange(lo as int, n as int),
            trim_end(u) == trim_end(s@.subrange(lo as int, hi as int)),
        decreases hi,
    {
        assert(s@.subrange(lo as int, hi as int).drop_last() =~= s@.subrange(
            lo as int,
            hi - 1,
        ));
        hi = hi - 1;
    }
    let r = s.substring_char(lo, hi);
    assert(trim_end(r@) == r@);
    r
}

/// The characters of `s`, ASCII-lowercased.
pub fn lowercase_chars(s: &str) -> (r: Vec<char>)
    ensures
        r@ == ascii_lowercase(s@),
{
    let n = s.unicode_len();
    let mut out: Vec<char> = Vec::new();
    let mut i: usize = 0;
    while i < n
        invariant
            n == s@.len(),
            i <= n,
            out@ =~= ascii_lowercase(s@.subrange(0, i as int)),
        decreases n - i,
    {
        let c = lower(s.get_char(i));
        out.push(c);
        i = i + 1;
    }
    assert(s@.subrange(0, n as int) =~= s@);
    out
}

/// `a` and `b` hold the same characters.
pub fn str_equal(a: &str, b: &str) -> (r: bool)
    ensures
        r == (a@ == b@),
{
    let n = a.unicode_len();
    if n != b.unicode_len() {
        return false;
    }
    let mut i: usize = 0;
    while i < n
        invariant
            n == a@.len(),
            n == b@.len(),
            i <= n,
            forall|j: int| 0 <= j < i ==> a@[j] == b@[j],
        decreases n - i,
    {
        if a.get_char(i) != b.get_char(i) {
            return false;
        }
        i = i + 1;
    }
    assert(a@ =~= b@);
    true
}

/// `v` holds exactly the characters of `lit`.
pub fn chars_equal(v: &Vec<char>, lit: &str) -> (r: bool)
    ensures
        r == (v@ == lit@),
{
    let n = lit.unicode_len();
    if v.len() != n {
        return false;
    }
    let mut i: usize = 0;
    while i < n
        invariant
            n == lit@.len(),
            n == v@.len(),
            i <= n,
            forall|j: int| 0 <= j < i ==> v@[j] == lit@[j],
        decreases n - i,
    {
        if v[i] != lit.get_char(i) {
            return false;
        }
        i = i + 1;
    }
    assert(v@ =~= lit@);
    true
}

/// `v` ends with the characters of `suffix`.
pub fn chars_end_with(v: &Vec<char>, suffix: &str) -> (r: bool)
    ensures
        r == ends_with(v@, suffix@),
{
    let n = suffix.unicode_len();
    let len = v.len();
    if n > len {
        return false;
    }
    let base = len - n;
    let mut i: usize = 0;
    while i < n
        invariant
            n == suffix@.len(),
            len == v@.len(),
            base == len - n,
            i <= n,
            forall|j: int| 0 <= j < i ==> v@[base + j] == suffix@[j],
        decreases n - i,
    {
        if v[base + i] != suffix.get_char(i) {
            assert(v@.subrange(base as int, len as int)[i as int] != suffix@[i as int]);
            return false;
        }
        i = i + 1;
    }
    assert(v@.subrange(base as int, len as int) =~= suffix@);
    true
}

} // verus!
