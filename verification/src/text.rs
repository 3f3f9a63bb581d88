use vstd::prelude::*;

verus! {

/// Whether `c` is white space as `char::is_whitespace` of the std that
/// the library is built with decides it.
pub uninterp spec fn unicode_whitespace(c: char) -> bool;

/// Whether `c` is a letter as `char::is_alphabetic` of the std that the
/// library is built with decides it.
pub uninterp spec fn unicode_alphabetic(c: char) -> bool;

/// Whether `c` is a letter or a numeral as `char::is_alphanumeric` of the
/// std that the library is built with decides it.
pub uninterp spec fn unicode_alphanumeric(c: char) -> bool;

/// Trusted, not proved: `char::is_whitespace` tells whether its argument
/// is white space in Unicode (`White_Space`). The contract only gives that
/// answer a name; it claims nothing of any one character.
pub assume_specification[ char::is_whitespace ](c: char) -> (r: bool)
    ensures
        r == unicode_whitespace(c),
;

/// Trusted, not proved: `char::is_alphabetic` tells whether its argument
/// is alphabetic in Unicode (`Alphabetic`). The contract only gives that
/// answer a name.
pub assume_specification[ char::is_alphabetic ](c: char) -> (r: bool)
    ensures
        r == unicode_alphabetic(c),
;

/// Trusted, not proved: `char::is_alphanumeric` tells whether its argument
/// is alphabetic or numeric in Unicode. The contract only gives that answer
/// a name.
pub assume_specification[ char::is_alphanumeric ](c: char) -> (r: bool)
    ensures
        r == unicode_alphanumeric(c),
;

/// Trusted, not proved: `String::push` appends the character to the end
/// of the string and changes nothing else of it.
pub assume_specification[ std::string::String::push ](s: &mut std::string::String, c: char)
    ensures
        final(s)@ == old(s)@.push(c),
;

/// Whether two strings hold the same characters.
pub fn same_text(a: &String, b: &String) -> (r: bool)
    ensures
        r == (a@ == b@),
{
    *a == *b
}

/// The values of a list of strings.
pub open spec fn texts_view(texts: Seq<String>) -> Seq<Seq<char>> {
    texts.map_values(|s: String| s@)
}

/// A copy of a list of strings.
pub fn copy_texts(texts: &Vec<String>) -> (r: Vec<String>)
    ensures
        texts_view(r@) == texts_view(texts@),
{
    let mut out: Vec<String> = Vec::new();
    let mut i: usize = 0;
    while i < texts.len()
        invariant
            0 <= i <= texts.len(),
            texts_view(out@) == texts_view(texts@).take(i as int),
        decreases texts.len() - i,
    {
        let ghost done = texts_view(out@);
        let t = texts[i].clone();
        proof {
            assert(texts_view(out@.push(t)) == done.push(t@));
            assert(texts_view(texts@).take(i + 1) == texts_view(texts@).take(i as int).push(t@));
        }
        out.push(t);
        i += 1;
    }
    proof {
        assert(texts_view(texts@).take(texts.len() as int) == texts_view(texts@));
    }
    out
}

/// The characters of `s`, in order.
pub fn chars_of(s: &str) -> (r: Vec<char>)
    ensures
        r@ == s@,
{
    let mut out: Vec<char> = Vec::new();
    for c in it: s.chars()
        invariant
            out@ == it.seq().take(it.index()),
            it.seq() == s@,
    {
        out.push(c);
    }
    out
}

/// The string made of `v[from..to]`.
pub fn string_of(v: &Vec<char>, from: usize, to: usize) -> (r: String)
    requires
        from <= to <= v.len(),
    ensures
        r@ == v@.subrange(from as int, to as int),
{
    let mut out = String::new();
    let mut i: usize = from;
    while i < to
        invariant
            from <= i <= to <= v.len(),
            out@ == v@.subrange(from as int, i as int),
        decreases to - i,
    {
        out.push(v[i]);
        i += 1;
    }
    out
}

/// The string made of `v`.
pub fn string_from(v: &Vec<char>) -> (r: String)
    ensures
        r@ == v@,
{
    assert(v@.subrange(0, v@.len() as int) == v@);
    string_of(v, 0, v.len())
}

/// A character together with what std's Unicode tables say of it.
#[derive(Debug, Clone, Copy, PartialEq, Eq, Structural)]
pub struct Glyph {
    pub value: char,
    /// Whether the character is white space.
    pub space: bool,
    /// Whether the character is a letter.
    pub letter: bool,
    /// Whether the character is a letter or a numeral.
    pub alphanumeric: bool,
}

/// The glyph of a character.
pub open spec fn glyph_of(c: char) -> Glyph {
    Glyph {
        value: c,
        space: unicode_whitespace(c),
        letter: unicode_alphabetic(c),
        alphanumeric: unicode_alphanumeric(c),
    }
}

/// The glyphs of a text.
pub open spec fn glyphs_of(s: Seq<char>) -> Seq<Glyph> {
    s.map_values(|c: char| glyph_of(c))
}

/// The characters of a sequence of glyphs.
pub open spec fn values(s: Seq<Glyph>) -> Seq<char> {
    s.map_values(|g: Glyph| g.value)
}

/// Looks a character up in std's Unicode tables.
pub fn classify(c: char) -> (r: Glyph)
    ensures
        r == glyph_of(c),
{
    Glyph {
        value: c,
        space: c.is_whitespace(),
        letter: c.is_alphabetic(),
        alphanumeric: c.is_alphanumeric(),
    }
}

/// The glyphs of the characters of `v`.
pub fn glyphs_of_chars(v: &Vec<char>) -> (r: Vec<Glyph>)
    ensures
        r@ == glyphs_of(v@),
{
    let mut out: Vec<Glyph> = Vec::new();
    let mut i: usize = 0;
    while i < v.len()
        invariant
            0 <= i <= v.len(),
            out@ == glyphs_of(v@).take(i as int),
        decreases v.len() - i,
    {
        out.push(classify(v[i]));
        assert(out@ == glyphs_of(v@).take(i + 1));
        i += 1;
    }
    assert(glyphs_of(v@).take(v.len() as int) == glyphs_of(v@));
    out
}

/// The glyphs of a text.
pub fn glyphs(s: &str) -> (r: Vec<Glyph>)
    ensures
        r@ == glyphs_of(s@),
{
    let chars = chars_of(s);
    glyphs_of_chars(&chars)
}

/// The characters of `v[from..to]`.
pub fn chars_between(v: &Vec<Glyph>, from: usize, to: usize) -> (r: Vec<char>)
    requires
        from <= to <= v.len(),
    ensures
        r@ == values(v@.subrange(from as int, to as int)),
{
    let mut out: Vec<char> = Vec::new();
    let mut i: usize = from;
    while i < to
        invariant
            from <= i <= to <= v.len(),
            out@ == values(v@.subrange(from as int, i as int)),
        decreases to - i,
    {
        out.push(v[i].value);
        assert(out@ == values(v@.subrange(from as int, i + 1)));
        i += 1;
    }
    out
}

/// The string made of the characters of `v[from..to]`.
pub fn text_between(v: &Vec<Glyph>, from: usize, to: usize) -> (r: String)
    requires
        from <= to <= v.len(),
    ensures
        r@ == values(v@.subrange(from as int, to as int)),
{
    let chars = chars_between(v, from, to);
    string_from(&chars)
}

/// Where `s[from..to]` ends once the white space at its end is cut off.
pub open spec fn trim_back(s: Seq<Glyph>, from: int, to: int) -> int
    decreases to - from,
{
    if from < to <= s.len() && s[to - 1].space {
        trim_back(s, from, to - 1)
    } else {
        to
    }
}

/// Where `s[from..to]` begins once the white space at its start is cut off.
pub open spec fn trim_front(s: Seq<Glyph>, from: int, to: int) -> int
    decreases to - from,
{
    if 0 <= from < to && s[from].space {
        trim_front(s, from + 1, to)
    } else {
        from
    }
}

/// Cuts the white space off the end of `v[from..to]`.
pub fn trim_back_of(v: &Vec<Glyph>, from: usize, to: usize) -> (r: usize)
    requires
        from <= to <= v.len(),
    ensures
        from <= r <= to,
        r == trim_back(v@, from as int, to as int),
{
    let mut end: usize = to;
    while end > from && v[end - 1].space
        invariant
            from <= end <= to <= v.len(),
            trim_back(v@, from as int, end as int) == trim_back(v@, from as int, to as int),
        decreases end,
    {
        end -= 1;
    }
    end
}

/// Cuts the white space off the start of `v[from..to]`.
pub fn trim_front_of(v: &Vec<Glyph>, from: usize, to: usize) -> (r: usize)
    requires
        from <= to <= v.len(),
    ensures
        from <= r <= to,
        r == trim_front(v@, from as int, to as int),
{
    let mut start: usize = from;
    while start < to && v[start].space
        invariant
            from <= start <= to <= v.len(),
            trim_front(v@, start as int, to as int) == trim_front(v@, from as int, to as int),
        decreases to - start,
    {
        start += 1;
    }
    start
}

/// The lower-case form of an ASCII capital; any other character unchanged.
pub open spec fn ascii_lower(c: char) -> char {
    if 'A' <= c <= 'Z' {
        ((c as u32) + 32) as char
    } else {
        c
    }
}

/// Whether `a` and `b` are equal once ASCII capitals are read as small letters.
pub open spec fn same_ignoring_ascii_case(a: Seq<char>, b: Seq<char>) -> bool {
    a.map_values(|c: char| ascii_lower(c)) == b.map_values(|c: char| ascii_lower(c))
}

/// The code point of the lower-case form of `c`.
pub fn lower_of(c: char) -> (r: u32)
    ensures
        r == ascii_lower(c) as u32,
{
    if c >= 'A' && c <= 'Z' {
        c as u32 + 32
    } else {
        c as u32
    }
}

/// Compares `v[from..to]` with `word`, reading ASCII capitals as small letters.
pub fn matches_ignoring_ascii_case(v: &Vec<char>, from: usize, to: usize, word: &Vec<char>) -> (r:
    bool)
    requires
        from <= to <= v.len(),
    ensures
        r == same_ignoring_ascii_case(v@.subrange(from as int, to as int), word@),
{
    let ghost a = v@.subrange(from as int, to as int).map_values(|c: char| ascii_lower(c));
    let ghost b = word@.map_values(|c: char| ascii_lower(c));
    if to - from != word.len() {
        assert(a.len() != b.len());
        return false;
    }
    let mut i: usize = 0;
    while i < word.len()
        invariant
            from <= to <= v.len(),
            to - from == word.len(),
            0 <= i <= word.len(),
            a == v@.subrange(from as int, to as int).map_values(|c: char| ascii_lower(c)),
            b == word@.map_values(|c: char| ascii_lower(c)),
            forall|k: int| 0 <= k < i ==> a[k] == b[k],
        decreases word.len() - i,
    {
        if lower_of(v[from + i]) != lower_of(word[i]) {
            assert(a[i as int] != b[i as int]);
            return false;
        }
        i += 1;
    }
    assert(a =~= b);
    true
}

} // verus!
