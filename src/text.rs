//! Character-level helpers on `String` and `str`.
use vstd::prelude::*;

verus! {

/// Relies on `String::push`: it appends one character at the end of the string.
pub assume_specification[ String::push ](s: &mut String, ch: char)
    ensures
        final(s)@ == old(s)@.push(ch),
;


/// The views of a sequence of strings.
pub open spec fn views(v: Seq<String>) -> Seq<Seq<char>> {
    v.map_values(|s: String| s@)
}

/// The parts joined into one string, with `sep` between each two neighbours.
pub open spec fn join(parts: Seq<Seq<char>>, sep: char) -> Seq<char>
    decreases parts.len(),
{
    if parts.len() == 0 {
        Seq::empty()
    } else if parts.len() == 1 {
        parts[0]
    } else {
        join(parts.drop_last(), sep).push(sep) + parts.last()
    }
}

/// Whether two strings hold the same characters.
pub fn str_eq(a: &str, b: &str) -> (r: bool)
    ensures
        r == (a@ == b@),
{
    let n = a.unicode_len();
    if n != b.unicode_len() {
        return false;
    }
    let mut i: usize = 0;
    while i < n
        invariant
            n == a@.len() == b@.len(),
            i <= n,
            a@.subrange(0, i as int) == b@.subrange(0, i as int),
        decreases n - i,
    {
        if a.get_char(i) != b.get_char(i) {
            return false;
        }
        assert(a@.subrange(0, i + 1) == a@.subrange(0, i as int).push(a@[i as int]));
        assert(b@.subrange(0, i + 1) == b@.subrange(0, i as int).push(b@[i as int]));
        i = i + 1;
    }
    assert(a@ == a@.subrange(0, n as int));
    assert(b@ == b@.subrange(0, n as int));
    true
}

/// Appends the parts to `out`, joined with `sep` between each two neighbours.
pub fn push_joined(out: &mut String, parts: &Vec<String>, sep: char)
    ensures
        final(out)@ == old(out)@ + join(views(parts@), sep),
{
    let ghost start = out@;
    let mut i: usize = 0;
    while i < parts.len()
        invariant
            i <= parts@.len(),
            out@ == start + join(views(parts@.subrange(0, i as int)), sep),
        decreases parts@.len() - i,
    {
        let ghost before = views(parts@.subrange(0, i as int));
        let ghost after = views(parts@.subrange(0, i + 1));
        assert(after.drop_last() == before);
        assert(after.last() == parts@[i as int]@);
        if i > 0 {
            out.push(sep);
        } else {
            assert(before.len() == 0);
        }
        out.append(parts[i].as_str());
        i = i + 1;
    }
    assert(parts@.subrange(0, i as int) == parts@);
}


/// The characters of a string, one element each.
pub fn chars_of(s: &str) -> (r: Vec<char>)
    ensures
        r@ == s@,
{
    let n = s.unicode_len();
    let mut r: Vec<char> = Vec::new();
    let mut i: usize = 0;
    while i < n
        invariant
            n == s@.len(),
            i <= n,
            r@ == s@.subrange(0, i as int),
        decreases n - i,
    {
        r.push(s.get_char(i));
        assert(r@ =~= s@.subrange(0, i + 1));
        i = i + 1;
    }
    assert(r@ =~= s@);
    r
}

/// The number of bytes that UTF-8 takes for a character.
pub open spec fn char_utf8_len(c: char) -> nat {
    if (c as u32) < 0x80 {
        1
    } else if (c as u32) < 0x800 {
        2
    } else if (c as u32) < 0x10000 {
        3
    } else {
        4
    }
}

/// The number of bytes that UTF-8 takes for a string.
pub open spec fn utf8_len(s: Seq<char>) -> nat
    decreases s.len(),
{
    if s.len() == 0 {
        0
    } else {
        utf8_len(s.drop_last()) + char_utf8_len(s.last())
    }
}

/// A string has at most as many characters as it takes bytes.
pub proof fn lemma_utf8_len_at_least_chars(s: Seq<char>)
    ensures
        s.len() <= utf8_len(s),
    decreases s.len(),
{
    if s.len() > 0 {
        lemma_utf8_len_at_least_chars(s.drop_last());
    }
}

} // verus!
