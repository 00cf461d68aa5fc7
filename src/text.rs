use vstd::prelude::*;

verus! {

/// Characters with the Unicode `White_Space` property.
pub open spec fn is_space_spec(c: char) -> bool {
    let u = c as u32;
    (0x09 <= u && u <= 0x0D) || u == 0x20 || u == 0x85 || u == 0xA0 || u == 0x1680 || (0x2000
        <= u && u <= 0x200A) || u == 0x2028 || u == 0x2029 || u == 0x202F || u == 0x205F || u
        == 0x3000
}

/// ASCII lowercase of one character; every other character is kept.
pub open spec fn lower_spec(c: char) -> char {
    if 'A' <= c && c <= 'Z' {
        ((c as u8) + 32u8) as char
    } else {
        c
    }
}

/// Whether a character is white space in the Unicode sense.
pub fn is_space(c: char) -> (r: bool)
    ensures
        r == is_space_spec(c),
{
    let u = c as u32;
    (0x09 <= u && u <= 0x0D) || u == 0x20 || u == 0x85 || u == 0xA0 || u == 0x1680 || (0x2000
        <= u && u <= 0x200A) || u == 0x2028 || u == 0x2029 || u == 0x202F || u == 0x205F || u
        == 0x3000
}

/// The ASCII lowercase of a character.
pub fn lower_char(c: char) -> (r: char)
    ensures
        r == lower_spec(c),
{
    if 'A' <= c && c <= 'Z' {
        ((c as u8) + 32u8) as char
    } else {
        c
    }
}


/// The sequence with its leading white space removed.
pub open spec fn trim_start_spec(s: Seq<char>) -> Seq<char>
    decreases s.len(),
{
    if s.len() > 0 && is_space_spec(s[0]) {
        trim_start_spec(s.drop_first())
    } else {
        s
    }
}

/// The sequence with its trailing white space removed.
pub open spec fn trim_end_spec(s: Seq<char>) -> Seq<char>
    decreases s.len(),
{
    if s.len() > 0 && is_space_spec(s.last()) {
        trim_end_spec(s.drop_last())
    } else {
        s
    }
}

/// The sequence with white space removed at both ends, as `str::trim` does.
pub open spec fn trim_spec(s: Seq<char>) -> Seq<char> {
    trim_end_spec(trim_start_spec(s))
}

/// ASCII lowercase of every character.
pub open spec fn lower_seq(s: Seq<char>) -> Seq<char> {
    s.map_values(|c: char| lower_spec(c))
}

/// Every run of white space replaced by one ASCII space.
pub open spec fn collapse_spec(s: Seq<char>) -> Seq<char>
    decreases s.len(),
{
    if s.len() == 0 {
        s
    } else {
        let prev = collapse_spec(s.drop_last());
        if is_space_spec(s.last()) {
            if prev.len() > 0 && prev.last() == ' ' {
                prev
            } else {
                prev.push(' ')
            }
        } else {
            prev.push(s.last())
        }
    }
}

/// The normalized form of a search query: trimmed, ASCII-lowercased, and with
/// every run of white space collapsed to a single space.
pub open spec fn normalize_spec(q: Seq<char>) -> Seq<char> {
    collapse_spec(lower_seq(trim_spec(q)))
}

/// Relies on `String::push`: appends one character.
#[verifier::external_body]
pub(crate) fn push_char(s: &mut String, c: char)
    ensures
        final(s)@ == old(s)@.push(c),
{
    s.push(c)
}

proof fn lemma_lower_keeps_space(c: char)
    ensures
        is_space_spec(lower_spec(c)) == is_space_spec(c),
        !is_space_spec(c) ==> lower_spec(c) != ' ',
{
}

/// Normalizes a search query: trims white space at both ends, lowercases ASCII
/// letters and collapses every run of white space into one space.
pub fn norm_query(q: &str) -> (r: String)
    ensures
        r@ == normalize_spec(q@),
{
    let n = q.unicode_len();
    let mut i: usize = 0;
    assert(q@.subrange(0, n as int) =~= q@);
    while i < n && is_space(q.get_char(i))
        invariant
            n == q@.len(),
            i <= n,
            trim_start_spec(q@) == trim_start_spec(q@.subrange(i as int, n as int)),
        decreases n - i,
    {
        assert(q@.subrange(i as int, n as int).drop_first() =~= q@.subrange(i + 1, n as int));
        i = i + 1;
    }
    assert(trim_start_spec(q@) == q@.subrange(i as int, n as int));
    let mut j: usize = n;
    while j > i && is_space(q.get_char(j - 1))
        invariant
            n == q@.len(),
            i <= j <= n,
            trim_spec(q@) == trim_end_spec(q@.subrange(i as int, j as int)),
        decreases j,
    {
        assert(q@.subrange(i as int, j as int).drop_last() =~= q@.subrange(i as int, j - 1));
        j = j - 1;
    }
    assert(trim_spec(q@) == q@.subrange(i as int, j as int));
    let mut out = String::new();
    let mut pending: bool = false;
    let mut k: usize = i;
    while k < j
        invariant
            n == q@.len(),
            i <= k <= j <= n,
            out@ == collapse_spec(lower_seq(q@.subrange(i as int, k as int))),
            pending == (out@.len() > 0 && out@.last() == ' '),
        decreases j - k,
    {
        let c = q.get_char(k);
        let lc = lower_char(c);
        proof {
            lemma_lower_keeps_space(c);
            let prev = lower_seq(q@.subrange(i as int, k as int));
            let next = lower_seq(q@.subrange(i as int, k + 1));
            assert(next =~= prev.push(lc));
            assert(next.drop_last() =~= prev);
        }
        if is_space(lc) {
            if !pending {
                push_char(&mut out, ' ');
                pending = true;
            }
        } else {
            push_char(&mut out, lc);
            pending = false;
        }
        k = k + 1;
    }
    out
}


/// `suffix` is a suffix of `s`.
pub open spec fn ends_with_spec(s: Seq<char>, suffix: Seq<char>) -> bool {
    suffix.len() <= s.len() && s.subrange(s.len() - suffix.len(), s.len() as int) == suffix
}

/// Character-wise equality of two strings.
pub fn str_eq(a: &str, b: &str) -> (r: bool)
    ensures
        r == (a@ == b@),
{
    let n = a.unicode_len();
    let m = b.unicode_len();
    if n != m {
        return false;
    }
    let mut i: usize = 0;
    while i < n
        invariant
            n == a@.len(),
            n == b@.len(),
            i <= n,
            forall|k: int| 0 <= k < i ==> a@[k] == b@[k],
        decreases n - i,
    {
        if a.get_char(i) != b.get_char(i) {
            return false;
        }
        i = i + 1;
    }
    assert(a@ =~= b@);
    true
}

/// Whether `suffix` ends `s`.
pub fn ends_with(s: &str, suffix: &str) -> (r: bool)
    ensures
        r == ends_with_spec(s@, suffix@),
{
    let n = s.unicode_len();
    let m = suffix.unicode_len();
    if m > n {
        return false;
    }
    let off = n - m;
    let mut i: usize = 0;
    while i < m
        invariant
            n == s@.len(),
            m == suffix@.len(),
            off == n - m,
            i <= m,
            forall|k: int| 0 <= k < i ==> s@[off + k] == suffix@[k],
        decreases m - i,
    {
        if s.get_char(off + i) != suffix.get_char(i) {
            assert(s@.subrange(off as int, n as int)[i as int] != suffix@[i as int]);
            return false;
        }
        i = i + 1;
    }
    assert(s@.subrange(off as int, n as int) =~= suffix@);
    true
}

/// The string with every ASCII letter lowercased.
pub fn to_ascii_lower(s: &str) -> (r: String)
    ensures
        r@ == lower_seq(s@),
{
    let n = s.unicode_len();
    let mut out = String::new();
    let mut i: usize = 0;
    while i < n
        invariant
            n == s@.len(),
            i <= n,
            out@ == lower_seq(s@.subrange(0, i as int)),
        decreases n - i,
    {
        let c = lower_char(s.get_char(i));
        push_char(&mut out, c);
        assert(lower_seq(s@.subrange(0, i + 1)) =~= lower_seq(s@.subrange(0, i as int)).push(c));
        i = i + 1;
    }
    assert(s@.subrange(0, n as int) =~= s@);
    out
}

/// The string with white space removed at both ends.
pub fn trim(s: &str) -> (r: String)
    ensures
        r@ == trim_spec(s@),
{
    let n = s.unicode_len();
    let mut i: usize = 0;
    assert(s@.subrange(0, n as int) =~= s@);
    while i < n && is_space(s.get_char(i))
        invariant
            n == s@.len(),
            i <= n,
            trim_start_spec(s@) == trim_start_spec(s@.subrange(i as int, n as int)),
        decreases n - i,
    {
        assert(s@.subrange(i as int, n as int).drop_first() =~= s@.subrange(i + 1, n as int));
        i = i + 1;
    }
    let mut j: usize = n;
    while j > i && is_space(s.get_char(j - 1))
        invariant
            n == s@.len(),
            i <= j <= n,
            trim_spec(s@) == trim_end_spec(s@.subrange(i as int, j as int)),
        decreases j,
    {
        assert(s@.subrange(i as int, j as int).drop_last() =~= s@.subrange(i as int, j - 1));
        j = j - 1;
    }
    String::from_str(s.substring_char(i, j))
}

} // verus!
