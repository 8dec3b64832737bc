use vstd::prelude::*;

verus! {

/// The characters that Unicode gives the `White_Space` property.
pub open spec fn white_space(c: char) -> bool {
    let u = c as u32;
    ||| 0x09 <= u <= 0x0d
    ||| u == 0x20
    ||| u == 0x85
    ||| u == 0xa0
    ||| u == 0x1680
    ||| 0x2000 <= u <= 0x200a
    ||| u == 0x2028
    ||| u == 0x2029
    ||| u == 0x202f
    ||| u == 0x205f
    ||| u == 0x3000
}

/// `text` without its leading white space.
pub open spec fn trim_start(text: Seq<char>) -> Seq<char>
    decreases text.len(),
{
    if text.len() > 0 && white_space(text[0]) {
        trim_start(text.drop_first())
    } else {
        text
    }
}

/// `text` without its trailing white space.
pub open spec fn trim_end(text: Seq<char>) -> Seq<char>
    decreases text.len(),
{
    if text.len() > 0 && white_space(text.last()) {
        trim_end(text.drop_last())
    } else {
        text
    }
}

/// `text` without leading and trailing white space.
pub open spec fn trimmed(text: Seq<char>) -> Seq<char> {
    trim_end(trim_start(text))
}

/// The ASCII lower-case form of one character; other characters are unchanged.
pub open spec fn ascii_lower(c: char) -> char {
    if 'A' <= c <= 'Z' {
        ((c as u32) + 32) as char
    } else {
        c
    }
}

/// The ASCII upper-case form of one character; other characters are unchanged.
pub open spec fn ascii_upper(c: char) -> char {
    if 'a' <= c <= 'z' {
        ((c as u32) - 32) as char
    } else {
        c
    }
}

pub open spec fn ascii_lowercase(text: Seq<char>) -> Seq<char> {
    text.map_values(|c: char| ascii_lower(c))
}

pub open spec fn ascii_uppercase(text: Seq<char>) -> Seq<char> {
    text.map_values(|c: char| ascii_upper(c))
}

/// Whether `needle` occurs as a contiguous part of `text`.
pub open spec fn has_fragment(text: Seq<char>, needle: Seq<char>) -> bool {
    exists|i: int|
        0 <= i && i + needle.len() <= text.len() && #[trigger] text.subrange(i, i + needle.len())
            == needle
}

/// What `str::to_lowercase` returns for a text.
pub uninterp spec fn unicode_lowercase(text: Seq<char>) -> Seq<char>;

proof fn lemma_trim_start_skip(text: Seq<char>, i: int)
    requires
        0 <= i <= text.len(),
        forall|k: int| 0 <= k < i ==> white_space(#[trigger] text[k]),
    ensures
        trim_start(text) == trim_start(text.subrange(i, text.len() as int)),
    decreases i,
{
    if i == 0 {
        assert(text.subrange(0, text.len() as int) =~= text);
    } else {
        assert(white_space(text[0]));
        let rest = text.drop_first();
        assert forall|k: int| 0 <= k < i - 1 implies white_space(#[trigger] rest[k]) by {
            assert(rest[k] == text[k + 1]);
        }
        lemma_trim_start_skip(rest, i - 1);
        assert(rest.subrange(i - 1, rest.len() as int) =~= text.subrange(i, text.len() as int));
    }
}

proof fn lemma_trim_end_skip(text: Seq<char>, j: int)
    requires
        0 <= j <= text.len(),
        forall|k: int| j <= k < text.len() ==> white_space(#[trigger] text[k]),
    ensures
        trim_end(text) == trim_end(text.subrange(0, j)),
    decreases text.len() - j,
{
    if j == text.len() {
        assert(text.subrange(0, j) =~= text);
    } else {
        assert(white_space(text.last()));
        let rest = text.drop_last();
        assert forall|k: int| j <= k < rest.len() implies white_space(#[trigger] rest[k]) by {
            assert(rest[k] == text[k]);
        }
        lemma_trim_end_skip(rest, j);
        assert(rest.subrange(0, j) =~= text.subrange(0, j));
    }
}

/// Whether a character has the Unicode `White_Space` property.
pub fn is_white_space(c: char) -> (r: bool)
    ensures
        r == white_space(c),
{
    let u = c as u32;
    (0x09 <= u && u <= 0x0d) || u == 0x20 || u == 0x85 || u == 0xa0 || u == 0x1680 || (0x2000
        <= u && u <= 0x200a) || u == 0x2028 || u == 0x2029 || u == 0x202f || u == 0x205f || u
        == 0x3000
}

/// Calls `String::push`, which appends one character.
#[verifier::external_body]
pub(crate) fn push_char(text: &mut String, c: char)
    ensures
        final(text)@ == old(text)@.push(c),
{
    text.push(c);
}

/// Calls `str::to_lowercase`, whose result is the Unicode lower-case mapping of the text.
#[verifier::external_body]
pub(crate) fn to_lowercase(text: &str) -> (r: String)
    ensures
        r@ == unicode_lowercase(text@),
{
    text.to_lowercase()
}

/// The characters of a text.
pub fn text_chars(text: &str) -> (r: Vec<char>)
    ensures
        r@ == text@,
{
    let n = text.unicode_len();
    let mut chars: Vec<char> = Vec::new();
    let mut i: usize = 0;
    while i < n
        invariant
            n == text@.len(),
            i <= n,
            chars@ == text@.subrange(0, i as int),
        decreases n - i,
    {
        chars.push(text.get_char(i));
        i = i + 1;
        assert(chars@ =~= text@.subrange(0, i as int));
    }
    assert(chars@ =~= text@);
    chars
}

/// A string holding the given characters.
pub fn string_from_chars(chars: &Vec<char>) -> (r: String)
    ensures
        r@ == chars@,
{
    let mut text = String::new();
    let mut i: usize = 0;
    while i < chars.len()
        invariant
            i <= chars.len(),
            text@ == chars@.subrange(0, i as int),
        decreases chars.len() - i,
    {
        push_char(&mut text, chars[i]);
        i = i + 1;
        assert(text@ =~= chars@.subrange(0, i as int));
    }
    assert(chars@.subrange(0, chars.len() as int) =~= chars@);
    text
}

/// `text` without leading and trailing white space.
pub fn trim(text: &str) -> (r: String)
    ensures
        r@ == trimmed(text@),
{
    let n = text.unicode_len();
    let mut i: usize = 0;
    while i < n && is_white_space(text.get_char(i))
        invariant
            n == text@.len(),
            i <= n,
            forall|k: int| 0 <= k < i ==> white_space(#[trigger] text@[k]),
        decreases n - i,
    {
        i = i + 1;
    }
    proof {
        lemma_trim_start_skip(text@, i as int);
        let rest = text@.subrange(i as int, n as int);
        if rest.len() > 0 {
            assert(rest[0] == text@[i as int]);
        }
        assert(trim_start(rest) == rest);
    }
    let mut j: usize = n;
    while j > i && is_white_space(text.get_char(j - 1))
        invariant
            n == text@.len(),
            i <= j <= n,
            forall|k: int| j <= k < n ==> white_space(#[trigger] text@[k]),
        decreases j,
    {
        j = j - 1;
    }
    proof {
        let rest = text@.subrange(i as int, n as int);
        assert forall|k: int| j - i <= k < rest.len() implies white_space(#[trigger] rest[k]) by {
            assert(rest[k] == text@[k + i]);
        }
        lemma_trim_end_skip(rest, j - i);
        let kept = rest.subrange(0, j - i);
        if kept.len() > 0 {
            assert(kept.last() == text@[j - 1]);
        }
        assert(trim_end(kept) == kept);
        assert(kept =~= text@.subrange(i as int, j as int));
    }
    String::from_str(text.substring_char(i, j))
}

/// Whether two texts hold the same characters.
pub fn same_text(left: &str, right: &str) -> (r: bool)
    ensures
        r == (left@ == right@),
{
    let n = left.unicode_len();
    if n != right.unicode_len() {
        return false;
    }
    let mut i: usize = 0;
    while i < n
        invariant
            n == left@.len(),
            n == right@.len(),
            i <= n,
            forall|k: int| 0 <= k < i ==> left@[k] == right@[k],
        decreases n - i,
    {
        if left.get_char(i) != right.get_char(i) {
            return false;
        }
        i = i + 1;
    }
    assert(left@ =~= right@);
    true
}

/// Whether a list of characters spells a text.
pub fn chars_spell(chars: &Vec<char>, text: &str) -> (r: bool)
    ensures
        r == (chars@ == text@),
{
    let n = text.unicode_len();
    if chars.len() != n {
        return false;
    }
    let mut i: usize = 0;
    while i < n
        invariant
            n == text@.len(),
            n == chars@.len(),
            i <= n,
            forall|k: int| 0 <= k < i ==> chars@[k] == text@[k],
        decreases n - i,
    {
        if chars[i] != text.get_char(i) {
            return false;
        }
        i = i + 1;
    }
    assert(chars@ =~= text@);
    true
}

fn lower_char(c: char) -> (r: char)
    ensures
        r == ascii_lower(c),
{
    if 'A' <= c && c <= 'Z' {
        let code = (c as u32 + 32) as u8;
        proof {
            assert(code as u32 == c as u32 + 32);
        }
        code as char
    } else {
        c
    }
}

fn upper_char(c: char) -> (r: char)
    ensures
        r == ascii_upper(c),
{
    if 'a' <= c && c <= 'z' {
        let code = (c as u32 - 32) as u8;
        code as char
    } else {
        c
    }
}

/// The ASCII lower-case form of a text.
pub fn to_ascii_lowercase(text: &str) -> (r: Vec<char>)
    ensures
        r@ == ascii_lowercase(text@),
{
    let n = text.unicode_len();
    let mut out: Vec<char> = Vec::new();
    let mut i: usize = 0;
    while i < n
        invariant
            n == text@.len(),
            i <= n,
            out@ == ascii_lowercase(text@.subrange(0, i as int)),
        decreases n - i,
    {
        out.push(lower_char(text.get_char(i)));
        i = i + 1;
        assert(out@ =~= ascii_lowercase(text@.subrange(0, i as int)));
    }
    assert(text@.subrange(0, n as int) =~= text@);
    out
}

/// The ASCII upper-case form of a text.
pub fn to_ascii_uppercase(text: &str) -> (r: Vec<char>)
    ensures
        r@ == ascii_uppercase(text@),
{
    let n = text.unicode_len();
    let mut out: Vec<char> = Vec::new();
    let mut i: usize = 0;
    while i < n
        invariant
            n == text@.len(),
            i <= n,
            out@ == ascii_uppercase(text@.subrange(0, i as int)),
        decreases n - i,
    {
        out.push(upper_char(text.get_char(i)));
        i = i + 1;
        assert(out@ =~= ascii_uppercase(text@.subrange(0, i as int)));
    }
    assert(text@.subrange(0, n as int) =~= text@);
    out
}

/// Whether `needle` occurs as a contiguous part of `text`.
pub fn contains_fragment(text: &Vec<char>, needle: &Vec<char>) -> (r: bool)
    ensures
        r == has_fragment(text@, needle@),
{
    let n = text.len();
    let m = needle.len();
    if m > n {
        return false;
    }
    if m == 0 {
        assert(text@.subrange(0, 0 + needle@.len() as int) =~= needle@);
        return true;
    }
    let mut i: usize = 0;
    while i <= n - m
        invariant
            n == text@.len(),
            m == needle@.len(),
            1 <= m <= n,
            i <= n - m + 1,
            forall|s: int| 0 <= s < i ==> #[trigger] text@.subrange(s, s + m) != needle@,
        decreases n - m + 1 - i,
    {
        let mut k: usize = 0;
        let mut matched = true;
        while k < m
            invariant
                n == text@.len(),
                m == needle@.len(),
                i + m <= n,
                k <= m,
                matched ==> forall|t: int| 0 <= t < k ==> text@[i + t] == needle@[t],
                !matched ==> text@.subrange(i as int, i + m) != needle@,
            decreases m - k,
        {
            if matched && text[i + k] != needle[k] {
                matched = false;
                assert(text@.subrange(i as int, i + m)[k as int] == text@[i + k]);
            }
            k = k + 1;
        }
        if matched {
            assert(text@.subrange(i as int, i + m) =~= needle@);
            return true;
        }
        i = i + 1;
    }
    assert forall|s: int| 0 <= s && s + m <= n implies #[trigger] text@.subrange(s, s + m)
        != needle@ by {
        assert(s < i);
    }
    false
}

} // verus!
