//! Character-level helpers on strings.

use vstd::prelude::*;

verus! {

broadcast use vstd::string::group_string_axioms;

/// The characters of `s`, in order.
pub fn chars_of(s: &str) -> (v: Vec<char>)
    ensures
        v@ == s@,
{
    let mut v: Vec<char> = Vec::new();
    for c in iter: s.chars()
        invariant
            v@ == iter.seq().take(iter.index() as int),
    {
        v.push(c);
    }
    assert(v@ =~= s@);
    v
}

/// The number of bytes that UTF-8 takes for `c`.
pub open spec fn char_width(c: char) -> nat {
    if (c as u32) < 0x80 {
        1
    } else if (c as u32) < 0x800 {
        2
    } else if (c as u32) < 0x10000 {
        3
    } else {
        4
    }
}

/// The number of bytes that UTF-8 takes for `s`.
pub open spec fn utf8_width(s: Seq<char>) -> nat
    decreases s.len(),
{
    if s.len() == 0 {
        0
    } else {
        utf8_width(s.drop_last()) + char_width(s.last())
    }
}

/// The number of bytes that UTF-8 takes for `c`.
pub fn exec_char_width(c: char) -> (w: usize)
    ensures
        w as nat == char_width(c),
{
    let u = c as u32;
    if u < 0x80 {
        1
    } else if u < 0x800 {
        2
    } else if u < 0x10000 {
        3
    } else {
        4
    }
}

/// Extending a prefix of `s` by one character adds that character's width.
pub proof fn lemma_utf8_width_push(s: Seq<char>, i: int)
    requires
        0 <= i < s.len(),
    ensures
        utf8_width(s.take(i + 1)) == utf8_width(s.take(i)) + char_width(s[i]),
{
    assert(s.take(i + 1).drop_last() =~= s.take(i));
}

/// Whether `c` is white space in Unicode's sense (the `White_Space`
/// property), as Rust's `char::is_whitespace` decides it.
pub open spec fn is_white_space(c: char) -> bool {
    let u = c as u32;
    ||| 0x9 <= u <= 0xd
    ||| u == 0x20
    ||| u == 0x85
    ||| u == 0xa0
    ||| u == 0x1680
    ||| 0x2000 <= u <= 0x200a
    ||| u == 0x2028
    ||| u == 0x2029
    ||| u == 0x202f
    ||| u == 0x205f
    ||| u == 0x3000
}

/// Whether `c` is white space.
pub fn exec_is_white_space(c: char) -> (r: bool)
    ensures
        r == is_white_space(c),
{
    let u = c as u32;
    (0x9 <= u && u <= 0xd) || u == 0x20 || u == 0x85 || u == 0xa0 || u == 0x1680 || (0x2000 <= u
        && u <= 0x200a) || u == 0x2028 || u == 0x2029 || u == 0x202f || u == 0x205f || u == 0x3000
}

/// `s` without its trailing white space.
pub open spec fn spec_trim_end(s: Seq<char>) -> Seq<char>
    decreases s.len(),
{
    if s.len() > 0 && is_white_space(s.last()) {
        spec_trim_end(s.drop_last())
    } else {
        s
    }
}

/// `s` without its trailing white space.
pub fn trim_end(s: &str) -> (r: &str)
    ensures
        r@ == spec_trim_end(s@),
{
    let chars = chars_of(s);
    let mut k: usize = chars.len();
    assert(s@.take(chars.len() as int) =~= s@);
    while k > 0 && exec_is_white_space(chars[k - 1])
        invariant
            chars@ == s@,
            k <= chars.len(),
            spec_trim_end(s@.take(k as int)) == spec_trim_end(s@),
        decreases k,
    {
        assert(s@.take(k as int).drop_last() =~= s@.take(k - 1));
        k = k - 1;
    }
    s.substring_char(0, k)
}

/// Taking the first character off adds its width.
proof fn lemma_utf8_width_drop_first(s: Seq<char>)
    requires
        s.len() > 0,
    ensures
        utf8_width(s) == char_width(s[0]) + utf8_width(s.drop_first()),
    decreases s.len(),
{
    if s.len() > 1 {
        lemma_utf8_width_drop_first(s.drop_last());
        assert(s.drop_last().drop_first() =~= s.drop_first().drop_last());
        assert(s.drop_last()[0] == s[0]);
    } else {
        assert(s.drop_last() =~= Seq::<char>::empty());
        assert(s.drop_first() =~= Seq::<char>::empty());
    }
}

/// `utf8_width` is the length of the UTF-8 encoding: the byte length that
/// Rust's `str::len` reports.
pub proof fn lemma_utf8_width_is_byte_len(s: Seq<char>)
    ensures
        utf8_width(s) == vstd::utf8::encode_utf8(s).len(),
    decreases s.len(),
{
    if s.len() > 0 {
        lemma_utf8_width_drop_first(s);
        lemma_utf8_width_is_byte_len(s.drop_first());
        vstd::utf8::char_is_scalar(s[0]);
    }
}

/// Trimming is idempotent, and what it leaves does not end in white space.
pub proof fn lemma_trim_end_idempotent(s: Seq<char>)
    ensures
        spec_trim_end(spec_trim_end(s)) == spec_trim_end(s),
        spec_trim_end(s).len() > 0 ==> !is_white_space(spec_trim_end(s).last()),
        spec_trim_end(s).len() <= s.len(),
        spec_trim_end(s) == s.take(spec_trim_end(s).len() as int),
    decreases s.len(),
{
    if s.len() > 0 && is_white_space(s.last()) {
        lemma_trim_end_idempotent(s.drop_last());
        let t = spec_trim_end(s.drop_last());
        assert(s.drop_last().take(t.len() as int) =~= s.take(t.len() as int));
    } else {
        assert(s.take(s.len() as int) =~= s);
    }
}

/// Trimming removes white space only: what it leaves, followed by what it
/// removed, is the whole text, and every removed character is white space.
/// White space holds no ASCII letter or digit.
pub proof fn lemma_trim_end_removes_only_white_space(s: Seq<char>)
    ensures
        spec_trim_end(s).len() <= s.len(),
        s == spec_trim_end(s) + s.skip(spec_trim_end(s).len() as int),
        forall|i: int|
            spec_trim_end(s).len() <= i < s.len() ==> #[trigger] is_white_space(s[i]),
        forall|c: char|
            ('0' <= c <= '9' || 'a' <= c <= 'z' || 'A' <= c <= 'Z') ==> !#[trigger] is_white_space(c),
    decreases s.len(),
{
    if s.len() > 0 && is_white_space(s.last()) {
        lemma_trim_end_removes_only_white_space(s.drop_last());
        let t = spec_trim_end(s.drop_last());
        assert forall|i: int| t.len() <= i < s.len() implies #[trigger] is_white_space(s[i]) by {
            if i < s.len() - 1 {
                assert(s[i] == s.drop_last()[i]);
            }
        }
        let d = s.drop_last();
        assert(d.take(t.len() as int) =~= t) by {
            assert(d == t + d.skip(t.len() as int));
            assert((t + d.skip(t.len() as int)).take(t.len() as int) =~= t);
        }
        assert forall|i: int| 0 <= i < t.len() implies s[i] == t[i] by {
            assert(d.take(t.len() as int)[i] == d[i]);
        }
        assert(s =~= t + s.skip(t.len() as int));
    } else {
        assert(s =~= s + s.skip(s.len() as int));
    }
}

} // verus!
