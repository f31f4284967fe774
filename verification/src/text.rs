//! Text as sequences of characters: searching, cutting, joining and replacing.
//!
//! Spec functions over `Seq<char>` say what a text becomes; the executable
//! functions beside them work on strings, one character at a time.

use vstd::prelude::*;
use vstd::string::StringExecFns;
use vstd::utf8::*;

verus! {

/// `String::push` appends the given character.
pub assume_specification[ String::push ](s: &mut String, c: char)
    ensures
        final(s)@ == old(s)@.push(c),
;

// ---------------------------------------------------------------------------
// Conversions
// ---------------------------------------------------------------------------

/// The texts of a list of strings.
pub open spec fn texts(list: Seq<String>) -> Seq<Seq<char>> {
    Seq::new(list.len(), |i: int| list[i]@)
}

/// The text of an optional string.
pub open spec fn opt_text(text: Option<String>) -> Option<Seq<char>> {
    match text {
        Some(s) => Some(s@),
        None => None,
    }
}

/// The characters of a text.
pub fn chars_of(text: &str) -> (chars: Vec<char>)
    ensures
        chars@ == text@,
{
    let mut chars: Vec<char> = Vec::new();
    for c in it: text.chars()
        invariant
            it.seq() == text@,
            chars@ == text@.take(it.index() as int),
    {
        chars.push(c);
        assert(text@.take(it.index() + 1) =~= text@.take(it.index() as int).push(c));
    }
    assert(text@.take(text@.len() as int) =~= text@);
    chars
}

/// The text made of the characters from `from` up to, not including, `to`.
pub fn text_between(chars: &Vec<char>, from: usize, to: usize) -> (text: String)
    requires
        from <= to <= chars@.len(),
    ensures
        text@ == chars@.subrange(from as int, to as int),
{
    let mut text = String::new();
    let mut i: usize = from;
    while i < to
        invariant
            from <= i <= to <= chars@.len(),
            text@ == chars@.subrange(from as int, i as int),
        decreases to - i,
    {
        text.push(chars[i]);
        assert(chars@.subrange(from as int, i + 1) =~= chars@.subrange(from as int, i as int).push(
            chars@[i as int],
        ));
        i = i + 1;
    }
    text
}

/// The text behind its first characters.
pub fn text_behind(text: &str, count: usize) -> (r: String)
    requires
        count <= text@.len(),
    ensures
        r@ == text@.skip(count as int),
{
    let chars = chars_of(text);
    let r = text_between(&chars, count, chars.len());
    assert(r@ =~= text@.skip(count as int));
    r
}

/// How many bytes a text takes as UTF-8.
pub fn byte_len(text: &str) -> (n: usize)
    ensures
        n == encode_utf8(text@).len(),
{
    text.as_bytes().len()
}

/// Whether a character of the text starts, or the text ends, after so many bytes.
pub open spec fn cuts_at(s: Seq<char>, n: int) -> bool {
    0 <= n <= encode_utf8(s).len() && is_char_boundary(encode_utf8(s), n)
}

/// The text behind its first `n` bytes.
pub open spec fn after_bytes(s: Seq<char>, n: int) -> Seq<char> {
    decode_utf8(encode_utf8(s).skip(n))
}

/// The first `n` bytes of the text.
pub open spec fn before_bytes(s: Seq<char>, n: int) -> Seq<char> {
    decode_utf8(encode_utf8(s).take(n))
}

/// Whether a text can be cut after so many bytes.
pub fn can_cut_at(text: &str, n: usize) -> (r: bool)
    ensures
        r == cuts_at(text@, n as int),
{
    n <= byte_len(text) && text.is_char_boundary(n)
}

/// The text behind its first `n` bytes.
pub fn text_after_bytes(text: &str, n: usize) -> (r: String)
    requires
        cuts_at(text@, n as int),
    ensures
        r@ == after_bytes(text@, n as int),
{
    let (_front, back) = text.split_at(n);
    proof {
        encode_utf8_decode_utf8(back@);
        assert(encode_utf8(back@) =~= encode_utf8(text@).skip(n as int));
    }
    copy_text(back)
}

/// The first `n` bytes of the text.
pub fn text_before_bytes(text: &str, n: usize) -> (r: String)
    requires
        cuts_at(text@, n as int),
    ensures
        r@ == before_bytes(text@, n as int),
{
    let (front, _back) = text.split_at(n);
    proof {
        encode_utf8_decode_utf8(front@);
        assert(encode_utf8(front@) =~= encode_utf8(text@).take(n as int));
    }
    copy_text(front)
}

/// A copy of a text.
pub fn copy_text(text: &str) -> (copy: String)
    ensures
        copy@ == text@,
{
    String::from_str(text)
}

/// A copy of a list of strings.
pub fn copy_texts(list: &Vec<String>) -> (copy: Vec<String>)
    ensures
        texts(copy@) == texts(list@),
{
    let mut copy: Vec<String> = Vec::new();
    let mut i: usize = 0;
    while i < list.len()
        invariant
            i <= list@.len(),
            copy@.len() == i,
            forall|j: int| 0 <= j < i ==> copy@[j]@ == list@[j]@,
        decreases list@.len() - i,
    {
        copy.push(list[i].clone());
        i = i + 1;
    }
    assert(texts(copy@) =~= texts(list@));
    copy
}

/// Whether two texts are the same.
pub fn same_text(a: &str, b: &str) -> (same: bool)
    ensures
        same == (a@ == b@),
{
    let x = chars_of(a);
    let y = chars_of(b);
    if x.len() != y.len() {
        return false;
    }
    let mut i: usize = 0;
    while i < x.len()
        invariant
            x@ == a@,
            y@ == b@,
            x@.len() == y@.len(),
            i <= x@.len(),
            forall|j: int| 0 <= j < i ==> x@[j] == y@[j],
        decreases x@.len() - i,
    {
        if x[i] != y[i] {
            assert(a@[i as int] != b@[i as int]);
            return false;
        }
        i = i + 1;
    }
    assert(a@ =~= b@);
    true
}

/// Two texts, one after the other.
pub fn cat2(a: &str, b: &str) -> (r: String)
    ensures
        r@ == a@ + b@,
{
    let mut r = copy_text(a);
    r.append(b);
    r
}

/// Three texts, one after the other.
pub fn cat3(a: &str, b: &str, c: &str) -> (r: String)
    ensures
        r@ == a@ + b@ + c@,
{
    let mut r = cat2(a, b);
    r.append(c);
    r
}

/// Four texts, one after the other.
pub fn cat4(a: &str, b: &str, c: &str, d: &str) -> (r: String)
    ensures
        r@ == a@ + b@ + c@ + d@,
{
    let mut r = cat3(a, b, c);
    r.append(d);
    r
}

/// Five texts, one after the other.
pub fn cat5(a: &str, b: &str, c: &str, d: &str, e: &str) -> (r: String)
    ensures
        r@ == a@ + b@ + c@ + d@ + e@,
{
    let mut r = cat4(a, b, c, d);
    r.append(e);
    r
}

/// Six texts, one after the other.
pub fn cat6(a: &str, b: &str, c: &str, d: &str, e: &str, f: &str) -> (r: String)
    ensures
        r@ == a@ + b@ + c@ + d@ + e@ + f@,
{
    let mut r = cat5(a, b, c, d, e);
    r.append(f);
    r
}

/// Seven texts, one after the other.
pub fn cat7(a: &str, b: &str, c: &str, d: &str, e: &str, f: &str, g: &str) -> (r: String)
    ensures
        r@ == a@ + b@ + c@ + d@ + e@ + f@ + g@,
{
    let mut r = cat6(a, b, c, d, e, f);
    r.append(g);
    r
}

/// Eight texts, one after the other.
pub fn cat8(a: &str, b: &str, c: &str, d: &str, e: &str, f: &str, g: &str, h: &str) -> (r: String)
    ensures
        r@ == a@ + b@ + c@ + d@ + e@ + f@ + g@ + h@,
{
    let mut r = cat7(a, b, c, d, e, f, g);
    r.append(h);
    r
}

/// Nine texts, one after the other.
pub fn cat9(a: &str, b: &str, c: &str, d: &str, e: &str, f: &str, g: &str, h: &str, i: &str) -> (r: String)
    ensures
        r@ == a@ + b@ + c@ + d@ + e@ + f@ + g@ + h@ + i@,
{
    let mut r = cat8(a, b, c, d, e, f, g, h);
    r.append(i);
    r
}

// ---------------------------------------------------------------------------
// White space
// ---------------------------------------------------------------------------

/// The characters with the Unicode property White_Space.
pub open spec fn is_space(c: char) -> bool {
    let n = c as int;
    ||| 0x9 <= n <= 0xD
    ||| n == 0x20
    ||| n == 0x85
    ||| n == 0xA0
    ||| n == 0x1680
    ||| 0x2000 <= n <= 0x200A
    ||| n == 0x2028
    ||| n == 0x2029
    ||| n == 0x202F
    ||| n == 0x205F
    ||| n == 0x3000
}

/// Whether a character is white space.
pub fn is_space_char(c: char) -> (b: bool)
    ensures
        b == is_space(c),
{
    let n: u32 = c as u32;
    (n >= 0x9 && n <= 0xD) || n == 0x20 || n == 0x85 || n == 0xA0 || n == 0x1680 || (n >= 0x2000
        && n <= 0x200A) || n == 0x2028 || n == 0x2029 || n == 0x202F || n == 0x205F || n == 0x3000
}

/// The text without the white space at its start.
pub open spec fn trim_start(s: Seq<char>) -> Seq<char>
    decreases s.len(),
{
    if s.len() > 0 && is_space(s[0]) {
        trim_start(s.skip(1))
    } else {
        s
    }
}

/// The text without the white space at its end.
pub open spec fn trim_end(s: Seq<char>) -> Seq<char>
    decreases s.len(),
{
    if s.len() > 0 && is_space(s.last()) {
        trim_end(s.drop_last())
    } else {
        s
    }
}

/// The text without the white space at both ends.
pub open spec fn trim(s: Seq<char>) -> Seq<char> {
    trim_end(trim_start(s))
}

/// The index of the first character that is not white space.
fn start_of_content(chars: &Vec<char>) -> (i: usize)
    ensures
        i <= chars@.len(),
        trim_start(chars@) == chars@.skip(i as int),
{
    let mut i: usize = 0;
    assert(chars@.skip(0) =~= chars@);
    while i < chars.len() && is_space_char(chars[i])
        invariant
            i <= chars@.len(),
            trim_start(chars@) == trim_start(chars@.skip(i as int)),
        decreases chars@.len() - i,
    {
        assert(chars@.skip(i as int).skip(1) =~= chars@.skip(i + 1));
        i = i + 1;
    }
    i
}

/// The index behind the last character from `from` on that is not white space.
fn end_of_content(chars: &Vec<char>, from: usize) -> (i: usize)
    requires
        from <= chars@.len(),
    ensures
        from <= i <= chars@.len(),
        trim_end(chars@.skip(from as int)) == chars@.subrange(from as int, i as int),
{
    let mut i: usize = chars.len();
    assert(chars@.subrange(from as int, i as int) =~= chars@.skip(from as int));
    while i > from && is_space_char(chars[i - 1])
        invariant
            from <= i <= chars@.len(),
            trim_end(chars@.skip(from as int)) == trim_end(
                chars@.subrange(from as int, i as int),
            ),
        decreases i,
    {
        assert(chars@.subrange(from as int, i as int).drop_last() =~= chars@.subrange(
            from as int,
            i - 1,
        ));
        i = i - 1;
    }
    i
}

/// The text without the white space at its start.
pub fn trim_start_text(text: &str) -> (r: String)
    ensures
        r@ == trim_start(text@),
{
    let chars = chars_of(text);
    let from = start_of_content(&chars);
    assert(chars@.subrange(from as int, chars@.len() as int) =~= chars@.skip(from as int));
    text_between(&chars, from, chars.len())
}

/// The text without the white space at its end.
pub fn trim_end_text(text: &str) -> (r: String)
    ensures
        r@ == trim_end(text@),
{
    let chars = chars_of(text);
    let to = end_of_content(&chars, 0);
    assert(chars@.skip(0) =~= chars@);
    text_between(&chars, 0, to)
}

/// The text without the white space at both ends.
pub fn trim_text(text: &str) -> (r: String)
    ensures
        r@ == trim(text@),
{
    let chars = chars_of(text);
    let from = start_of_content(&chars);
    let to = end_of_content(&chars, from);
    text_between(&chars, from, to)
}

/// The text without the characters `c` at its end.
pub open spec fn trim_end_of(s: Seq<char>, c: char) -> Seq<char>
    decreases s.len(),
{
    if s.len() > 0 && s.last() == c {
        trim_end_of(s.drop_last(), c)
    } else {
        s
    }
}

/// The text without the characters `c` at its end.
pub fn trim_end_of_text(text: &str, c: char) -> (r: String)
    ensures
        r@ == trim_end_of(text@, c),
{
    let chars = chars_of(text);
    let mut i: usize = chars.len();
    assert(chars@.subrange(0, i as int) =~= chars@);
    while i > 0 && chars[i - 1] == c
        invariant
            i <= chars@.len(),
            trim_end_of(chars@, c) == trim_end_of(chars@.subrange(0, i as int), c),
        decreases i,
    {
        assert(chars@.subrange(0, i as int).drop_last() =~= chars@.subrange(0, i - 1));
        i = i - 1;
    }
    text_between(&chars, 0, i)
}

// ---------------------------------------------------------------------------
// Searching
// ---------------------------------------------------------------------------

/// Whether `pattern` stands in `s` at index `i`.
pub open spec fn occurs_at(s: Seq<char>, pattern: Seq<char>, i: int) -> bool {
    0 <= i && i + pattern.len() <= s.len() && s.subrange(i, i + pattern.len()) == pattern
}

/// Whether `s` begins with `pattern`.
pub open spec fn starts_with(s: Seq<char>, pattern: Seq<char>) -> bool {
    occurs_at(s, pattern, 0)
}

/// Whether `pattern` stands somewhere in `s`.
pub open spec fn contains(s: Seq<char>, pattern: Seq<char>) -> bool {
    exists|i: int| occurs_at(s, pattern, i)
}

/// The least index from `from` on at which `pattern` stands in `s`.
pub open spec fn find_from(s: Seq<char>, pattern: Seq<char>, from: int) -> Option<int>
    decreases s.len() + 1 - from,
{
    if from < 0 || from + pattern.len() > s.len() {
        None
    } else if occurs_at(s, pattern, from) {
        Some(from)
    } else {
        find_from(s, pattern, from + 1)
    }
}

/// The least index at which `pattern` stands in `s`.
pub open spec fn find(s: Seq<char>, pattern: Seq<char>) -> Option<int> {
    find_from(s, pattern, 0)
}

/// The least index at which the character `c` stands in `s`.
pub open spec fn find_char(s: Seq<char>, c: char) -> Option<int> {
    find(s, seq![c])
}

/// What [`find_from`] gives is the first place from `from` on; without one the
/// pattern stands nowhere from there on.
pub proof fn lemma_find_from(s: Seq<char>, pattern: Seq<char>, from: int)
    requires
        0 <= from,
    ensures
        match find_from(s, pattern, from) {
            Some(i) => from <= i && occurs_at(s, pattern, i) && (forall|j: int|
                from <= j < i ==> !occurs_at(s, pattern, j)),
            None => forall|j: int| from <= j ==> !occurs_at(s, pattern, j),
        },
    decreases s.len() + 1 - from,
{
    if from + pattern.len() <= s.len() && !occurs_at(s, pattern, from) {
        lemma_find_from(s, pattern, from + 1);
    }
}

/// A pattern is contained exactly where it can be found.
pub proof fn lemma_contains_find(s: Seq<char>, pattern: Seq<char>)
    ensures
        contains(s, pattern) <==> find(s, pattern) is Some,
{
    lemma_find_from(s, pattern, 0);
    if contains(s, pattern) {
        let i = choose|i: int| occurs_at(s, pattern, i);
        assert(occurs_at(s, pattern, i));
    }
}

/// The first index of a character, in terms of the character itself.
pub proof fn lemma_find_char(s: Seq<char>, c: char)
    ensures
        match find_char(s, c) {
            Some(i) => 0 <= i < s.len() && s[i] == c && (forall|j: int|
                0 <= j < i ==> s[j] != c),
            None => forall|j: int| 0 <= j < s.len() ==> s[j] != c,
        },
{
    lemma_find_from(s, seq![c], 0);
    assert forall|j: int| 0 <= j < s.len() implies (occurs_at(s, seq![c], j) <==> s[j] == c) by {
        assert(s.subrange(j, j + 1) =~= seq![s[j]]);
        assert(seq![s[j]][0] == s[j]);
        assert(seq![c][0] == c);
    }
    match find_char(s, c) {
        Some(i) => {
            assert(occurs_at(s, seq![c], i));
            assert forall|j: int| 0 <= j < i implies s[j] != c by {
                assert(!occurs_at(s, seq![c], j));
            }
        },
        None => {
            assert forall|j: int| 0 <= j < s.len() implies s[j] != c by {
                assert(!occurs_at(s, seq![c], j));
            }
        },
    }
}

/// Whether `pattern` stands in `chars` at index `i`.
pub fn occurs_in(chars: &Vec<char>, pattern: &Vec<char>, i: usize) -> (b: bool)
    requires
        i <= chars@.len(),
    ensures
        b == occurs_at(chars@, pattern@, i as int),
{
    if pattern.len() > chars.len() - i {
        return false;
    }
    let mut j: usize = 0;
    while j < pattern.len()
        invariant
            i + pattern@.len() <= chars.len(),
            j <= pattern@.len(),
            forall|k: int| 0 <= k < j ==> chars@[i + k] == pattern@[k],
        decreases pattern@.len() - j,
    {
        if chars[i + j] != pattern[j] {
            assert(chars@.subrange(i as int, i + pattern@.len())[j as int] != pattern@[j as int]);
            return false;
        }
        j = j + 1;
    }
    assert(chars@.subrange(i as int, i + pattern@.len()) =~= pattern@);
    true
}

/// The least index from `from` on at which `pattern` stands in `chars`.
pub fn find_in(chars: &Vec<char>, pattern: &Vec<char>, from: usize) -> (r: Option<usize>)
    requires
        from <= chars@.len(),
    ensures
        match r {
            Some(i) => find_from(chars@, pattern@, from as int) == Some(i as int) && i
                + pattern@.len() <= chars@.len(),
            None => find_from(chars@, pattern@, from as int) is None,
        },
{
    let mut i: usize = from;
    while i < chars.len() && pattern.len() <= chars.len() - i
        invariant
            from <= i <= chars@.len(),
            find_from(chars@, pattern@, from as int) == find_from(chars@, pattern@, i as int),
        decreases chars@.len() - i,
    {
        if occurs_in(chars, pattern, i) {
            return Some(i);
        }
        i = i + 1;
    }
    if i == chars.len() && pattern.len() == 0 {
        assert(occurs_at(chars@, pattern@, i as int)) by {
            assert(chars@.subrange(i as int, i as int) =~= pattern@);
        }
        return Some(i);
    }
    None
}

/// Whether a text begins with a pattern.
pub fn text_starts_with(text: &str, pattern: &str) -> (b: bool)
    ensures
        b == starts_with(text@, pattern@),
{
    let chars = chars_of(text);
    let p = chars_of(pattern);
    occurs_in(&chars, &p, 0)
}

/// Whether a pattern stands somewhere in a text.
pub fn text_contains(text: &str, pattern: &str) -> (b: bool)
    ensures
        b == contains(text@, pattern@),
{
    let chars = chars_of(text);
    let p = chars_of(pattern);
    proof {
        lemma_contains_find(text@, pattern@);
    }
    match find_in(&chars, &p, 0) {
        Some(_) => true,
        None => false,
    }
}

/// The least index of a character.
pub fn find_char_in(chars: &Vec<char>, c: char) -> (r: Option<usize>)
    ensures
        match r {
            Some(i) => find_char(chars@, c) == Some(i as int) && i < chars@.len(),
            None => find_char(chars@, c) is None,
        },
{
    let mut p: Vec<char> = Vec::new();
    p.push(c);
    assert(p@ =~= seq![c]);
    find_in(chars, &p, 0)
}

// ---------------------------------------------------------------------------
// Replacing
// ---------------------------------------------------------------------------

/// The text with every occurrence of `pattern` replaced by `with`, from left to
/// right and without overlaps. The pattern is not empty.
pub open spec fn replace_all(s: Seq<char>, pattern: Seq<char>, with: Seq<char>) -> Seq<char>
    decreases s.len(),
{
    if pattern.len() == 0 || s.len() < pattern.len() {
        s
    } else if starts_with(s, pattern) {
        with + replace_all(s.skip(pattern.len() as int), pattern, with)
    } else {
        seq![s[0]] + replace_all(s.skip(1), pattern, with)
    }
}

/// A text that does not hold the pattern stays as it is.
pub proof fn lemma_replace_absent(s: Seq<char>, pattern: Seq<char>, with: Seq<char>)
    requires
        !contains(s, pattern),
    ensures
        replace_all(s, pattern, with) == s,
    decreases s.len(),
{
    if pattern.len() > 0 && s.len() >= pattern.len() {
        assert(!occurs_at(s, pattern, 0));
        assert forall|i: int| !occurs_at(s.skip(1), pattern, i) by {
            if occurs_at(s.skip(1), pattern, i) {
                assert(s.skip(1).subrange(i, i + pattern.len()) =~= s.subrange(
                    i + 1,
                    i + 1 + pattern.len(),
                ));
                assert(occurs_at(s, pattern, i + 1));
            }
        }
        lemma_replace_absent(s.skip(1), pattern, with);
        assert(seq![s[0]] + s.skip(1) =~= s);
    }
}

/// The pattern alone becomes the replacement alone.
pub proof fn lemma_replace_whole(pattern: Seq<char>, with: Seq<char>)
    requires
        pattern.len() > 0,
    ensures
        replace_all(pattern, pattern, with) == with,
{
    assert(pattern.subrange(0, pattern.len() as int) =~= pattern);
    assert(occurs_at(pattern, pattern, 0));
    let rest = pattern.skip(pattern.len() as int);
    assert(rest.len() == 0);
    assert(replace_all(rest, pattern, with) == rest);
    assert(with + rest =~= with);
}

/// The text with every occurrence of a pattern replaced.
pub fn replace_all_text(text: &str, pattern: &str, with: &str) -> (r: String)
    requires
        pattern@.len() > 0,
    ensures
        r@ == replace_all(text@, pattern@, with@),
{
    let chars = chars_of(text);
    let p = chars_of(pattern);
    let mut r = String::new();
    let mut i: usize = 0;
    assert(chars@.skip(0) =~= chars@);
    while i < chars.len() && p.len() <= chars.len() - i
        invariant
            i <= chars@.len(),
            p@ == pattern@,
            p@.len() > 0,
            r@ + replace_all(chars@.skip(i as int), p@, with@) == replace_all(chars@, p@, with@),
        decreases chars@.len() - i,
    {
        let ghost rest = chars@.skip(i as int);
        let ghost before = r@;
        assert(occurs_at(chars@, p@, i as int) <==> starts_with(rest, p@)) by {
            assert(rest.subrange(0, p@.len() as int) =~= chars@.subrange(
                i as int,
                i + p@.len(),
            ));
        }
        if occurs_in(&chars, &p, i) {
            r.append(with);
            i = i + p.len();
            assert(rest.skip(p@.len() as int) =~= chars@.skip(i as int));
            assert(r@ + replace_all(chars@.skip(i as int), p@, with@) =~= before + (with@
                + replace_all(chars@.skip(i as int), p@, with@)));
        } else {
            r.push(chars[i]);
            i = i + 1;
            assert(rest.skip(1) =~= chars@.skip(i as int));
            assert(r@ + replace_all(chars@.skip(i as int), p@, with@) =~= before + (seq![rest[0]]
                + replace_all(chars@.skip(i as int), p@, with@)));
        }
    }
    let tail = text_between(&chars, i, chars.len());
    assert(tail@ =~= chars@.skip(i as int));
    r.append(tail.as_str());
    r
}

// ---------------------------------------------------------------------------
// Cutting and joining
// ---------------------------------------------------------------------------

/// The parts of a text between the characters `sep`; a text without one is a
/// single part.
pub open spec fn split(s: Seq<char>, sep: char) -> Seq<Seq<char>>
    decreases s.len(),
    via split_shrinks
{
    match find_char(s, sep) {
        Some(i) => seq![s.take(i)] + split(s.skip(i + 1), sep),
        None => seq![s],
    }
}

#[via_fn]
proof fn split_shrinks(s: Seq<char>, sep: char) {
    lemma_find_char(s, sep);
}

/// The text without a carriage return at its end.
pub open spec fn strip_return(s: Seq<char>) -> Seq<char> {
    if s.len() > 0 && s.last() == '\r' {
        s.drop_last()
    } else {
        s
    }
}

/// The lines of a text. A line ends with a line feed, before which one carriage
/// return belongs to the ending; the last line may have no ending.
pub open spec fn lines(s: Seq<char>) -> Seq<Seq<char>>
    decreases s.len(),
    via lines_shrink
{
    if s.len() == 0 {
        Seq::empty()
    } else {
        match find_char(s, '\n') {
            Some(i) => seq![strip_return(s.take(i))] + lines(s.skip(i + 1)),
            None => seq![s],
        }
    }
}

#[via_fn]
proof fn lines_shrink(s: Seq<char>) {
    lemma_find_char(s, '\n');
}

/// The parts joined, with `sep` between each two of them.
pub open spec fn join(parts: Seq<Seq<char>>, sep: Seq<char>) -> Seq<char>
    decreases parts.len(),
{
    if parts.len() == 0 {
        Seq::empty()
    } else if parts.len() == 1 {
        parts[0]
    } else {
        join(parts.drop_last(), sep) + sep + parts.last()
    }
}

/// Index of the first `c` from `from` on, with what [`find_char`] says of the
/// rest.
fn next_char(chars: &Vec<char>, c: char, from: usize) -> (r: Option<usize>)
    requires
        from <= chars@.len(),
    ensures
        match r {
            Some(i) => from <= i < chars@.len() && find_char(chars@.skip(from as int), c) == Some(
                i - from,
            ),
            None => find_char(chars@.skip(from as int), c) is None,
        },
{
    let ghost rest = chars@.skip(from as int);
    let mut i: usize = from;
    while i < chars.len()
        invariant
            from <= i <= chars@.len(),
            rest == chars@.skip(from as int),
            forall|j: int| 0 <= j < i - from ==> rest[j] != c,
        decreases chars@.len() - i,
    {
        if chars[i] == c {
            proof {
                assert(rest[i - from] == c);
                lemma_find_char(rest, c);
            }
            return Some(i);
        }
        assert(rest[i - from] != c);
        i = i + 1;
    }
    proof {
        lemma_find_char(rest, c);
    }
    None
}

/// The parts of a text between the characters `sep`.
pub fn split_text(text: &str, sep: char) -> (parts: Vec<String>)
    ensures
        texts(parts@) == split(text@, sep),
{
    let chars = chars_of(text);
    let mut parts: Vec<String> = Vec::new();
    let mut from: usize = 0;
    assert(chars@.skip(0) =~= chars@);
    assert(texts(parts@) + split(chars@, sep) =~= split(chars@, sep));
    loop
        invariant_except_break
            texts(parts@) + split(chars@.skip(from as int), sep) == split(chars@, sep),
        invariant
            from <= chars.len(),
        ensures
            texts(parts@) == split(chars@, sep),
        decreases chars@.len() - from,
    {
        let ghost before = texts(parts@);
        let ghost rest = chars@.skip(from as int);
        match next_char(&chars, sep, from) {
            Some(i) => {
                let part = text_between(&chars, from, i);
                assert(part@ =~= rest.take(i - from));
                parts.push(part);
                assert(rest.skip(i - from + 1) =~= chars@.skip(i + 1));
                assert(texts(parts@) =~= before.push(part@));
                assert(before.push(part@) + split(chars@.skip(i + 1), sep) =~= before + (
                seq![part@] + split(chars@.skip(i + 1), sep)));
                from = i + 1;
            },
            None => {
                let part = text_between(&chars, from, chars.len());
                assert(part@ =~= rest);
                parts.push(part);
                assert(texts(parts@) =~= before.push(part@));
                assert(before.push(part@) =~= before + seq![part@]);
                break;
            },
        }
    }
    parts
}

/// The lines of a text.
pub fn lines_of(text: &str) -> (r: Vec<String>)
    ensures
        texts(r@) == lines(text@),
{
    let chars = chars_of(text);
    let mut r: Vec<String> = Vec::new();
    let mut from: usize = 0;
    assert(chars@.skip(0) =~= chars@);
    assert(texts(r@) + lines(chars@) =~= lines(chars@));
    while from < chars.len()
        invariant
            from <= chars@.len(),
            texts(r@) + lines(chars@.skip(from as int)) == lines(chars@),
        decreases chars@.len() - from,
    {
        let ghost before = texts(r@);
        let ghost rest = chars@.skip(from as int);
        match next_char(&chars, '\n', from) {
            Some(i) => {
                let to = if i > from && chars[i - 1] == '\r' {
                    i - 1
                } else {
                    i
                };
                let line = text_between(&chars, from, to);
                assert(rest.take(i - from) =~= chars@.subrange(from as int, i as int));
                assert(line@ =~= strip_return(rest.take(i - from)));
                r.push(line);
                assert(rest.skip(i - from + 1) =~= chars@.skip(i + 1));
                assert(texts(r@) =~= before.push(line@));
                assert(before.push(line@) + lines(chars@.skip(i + 1)) =~= before + (seq![line@]
                    + lines(chars@.skip(i + 1))));
                from = i + 1;
            },
            None => {
                let line = text_between(&chars, from, chars.len());
                assert(line@ =~= rest);
                r.push(line);
                assert(texts(r@) =~= before.push(line@));
                from = chars.len();
                assert(chars@.skip(from as int) =~= Seq::<char>::empty());
                assert(before.push(line@) + lines(chars@.skip(from as int)) =~= before + seq![
                    line@,
                ]);
            },
        }
    }
    assert(chars@.skip(from as int) =~= Seq::<char>::empty());
    assert(texts(r@) + lines(chars@.skip(from as int)) =~= texts(r@));
    r
}

/// The parts joined, with `sep` between each two of them.
pub fn join_texts(parts: &Vec<String>, sep: &str) -> (r: String)
    ensures
        r@ == join(texts(parts@), sep@),
{
    let mut r = String::new();
    let ghost all = texts(parts@);
    let mut i: usize = 0;
    assert(all.take(0) =~= Seq::<Seq<char>>::empty());
    while i < parts.len()
        invariant
            all == texts(parts@),
            i <= parts@.len(),
            r@ == join(all.take(i as int), sep@),
        decreases parts@.len() - i,
    {
        assert(all.take(i + 1).drop_last() =~= all.take(i as int));
        assert(all.take(i + 1).last() == parts@[i as int]@);
        if i > 0 {
            r.append(sep);
            r.append(parts[i].as_str());
        } else {
            r.append(parts[i].as_str());
            assert(r@ =~= all.take(1)[0]);
        }
        i = i + 1;
    }
    assert(all.take(parts@.len() as int) =~= all);
    r
}

/// The texts of a list that has grown by one string.
pub proof fn lemma_texts_push(list: Seq<String>, s: String)
    ensures
        texts(list.push(s)) == texts(list).push(s@),
{
    assert(texts(list.push(s)) =~= texts(list).push(s@));
}

// ---------------------------------------------------------------------------
// Letter case
// ---------------------------------------------------------------------------

/// The Unicode lower case of a text, as `str::to_lowercase` gives it.
pub uninterp spec fn lowercase(s: Seq<char>) -> Seq<char>;

/// `str::to_lowercase`: the result is named [`lowercase`]; nothing is said of
/// how letters are mapped.
#[verifier::external_body]
pub(crate) fn to_lowercase(text: &str) -> (r: String)
    ensures
        r@ == lowercase(text@),
{
    text.to_lowercase()
}

/// The text that bytes stand for as UTF-8, with replacement characters for what
/// is not UTF-8, as `String::from_utf8_lossy` gives it.
pub uninterp spec fn lossy(bytes: Seq<u8>) -> Seq<char>;

/// `String::from_utf8_lossy`: the result is named [`lossy`]; bytes that are
/// UTF-8 give the text that they stand for.
#[verifier::external_body]
pub(crate) fn text_from_utf8_lossy(bytes: &[u8]) -> (r: String)
    ensures
        r@ == lossy(bytes@),
        valid_utf8(bytes@) ==> r@ == decode_utf8(bytes@),
{
    String::from_utf8_lossy(bytes).into_owned()
}

/// Whether `c` is the lower-case ASCII letter or other ASCII character `l`, in
/// either case.
pub open spec fn folds_to(c: char, l: char) -> bool {
    c == l || ('a' as int <= l as int <= 'z' as int && c as int + 32 == l as int)
}

/// Whether `c` is `l` in either case.
pub fn char_folds_to(c: char, l: char) -> (b: bool)
    ensures
        b == folds_to(c, l),
{
    let code: u32 = c as u32;
    let letter: u32 = l as u32;
    c == l || (letter >= 'a' as u32 && letter <= 'z' as u32 && code <= letter && letter - code
        == 32)
}

/// Whether the text begins with `pattern`, upper and lower case of the ASCII
/// letters taken as the same. The pattern is in lower case.
pub open spec fn starts_with_folded(s: Seq<char>, pattern: Seq<char>) -> bool {
    pattern.len() <= s.len() && forall|i: int|
        0 <= i < pattern.len() ==> folds_to(#[trigger] s[i], pattern[i])
}

/// Whether a text begins with a pattern, letter case aside.
pub fn text_starts_with_folded(text: &str, pattern: &str) -> (b: bool)
    ensures
        b == starts_with_folded(text@, pattern@),
{
    let chars = chars_of(text);
    let p = chars_of(pattern);
    if p.len() > chars.len() {
        return false;
    }
    let mut i: usize = 0;
    while i < p.len()
        invariant
            chars@ == text@,
            p@ == pattern@,
            p@.len() <= chars@.len(),
            i <= p@.len(),
            forall|j: int| 0 <= j < i ==> folds_to(#[trigger] chars@[j], p@[j]),
        decreases p@.len() - i,
    {
        if !char_folds_to(chars[i], p[i]) {
            assert(!folds_to(text@[i as int], pattern@[i as int]));
            return false;
        }
        i = i + 1;
    }
    true
}

// ---------------------------------------------------------------------------
// Laws
// ---------------------------------------------------------------------------

/// Among the ASCII characters, blanks are the space and those from the tab to the
/// carriage return, and no others.
pub proof fn law_ascii_blanks(c: char)
    requires
        (c as int) < 128,
    ensures
        is_space(c) <==> (c == ' ' || c == '\t' || c == '\n' || c == '\r' || c as int == 11
            || c as int == 12),
{
}

/// What is trimmed off the start of a text are blanks, and all that stand there.
pub proof fn law_trim_start_takes_blanks(s: Seq<char>) -> (k: int)
    ensures
        0 <= k <= s.len(),
        trim_start(s) == s.skip(k),
        forall|i: int| 0 <= i < k ==> is_space(#[trigger] s[i]),
        k < s.len() ==> !is_space(s[k]),
    decreases s.len(),
{
    if s.len() > 0 && is_space(s[0]) {
        let k = law_trim_start_takes_blanks(s.skip(1));
        assert(s.skip(1).skip(k) =~= s.skip(k + 1));
        assert forall|i: int| 0 <= i < k + 1 implies is_space(#[trigger] s[i]) by {
            if i > 0 {
                assert(s.skip(1)[i - 1] == s[i]);
            }
        }
        k + 1
    } else {
        assert(s.skip(0) =~= s);
        0
    }
}

/// What is trimmed off the end of a text are blanks, and all that stand there.
pub proof fn law_trim_end_takes_blanks(s: Seq<char>) -> (k: int)
    ensures
        0 <= k <= s.len(),
        trim_end(s) == s.take(k),
        forall|i: int| k <= i < s.len() ==> is_space(#[trigger] s[i]),
        k > 0 ==> !is_space(s[k - 1]),
    decreases s.len(),
{
    if s.len() > 0 && is_space(s.last()) {
        let k = law_trim_end_takes_blanks(s.drop_last());
        assert(s.drop_last().take(k) =~= s.take(k));
        assert forall|i: int| k <= i < s.len() implies is_space(#[trigger] s[i]) by {
            if i < s.len() - 1 {
                assert(s.drop_last()[i] == s[i]);
            }
        }
        k
    } else {
        assert(s.take(s.len() as int) =~= s);
        s.len() as int
    }
}

/// A text is what is left when it is trimmed, with nothing but blanks before and
/// behind; what is left is empty, or begins and ends with a character that is no
/// blank.
pub proof fn law_trim_takes_blanks(s: Seq<char>) -> (r: (int, int))
    ensures
        0 <= r.0 <= r.1 <= s.len(),
        trim(s) == s.subrange(r.0, r.1),
        forall|i: int| 0 <= i < r.0 ==> is_space(#[trigger] s[i]),
        forall|i: int| r.1 <= i < s.len() ==> is_space(#[trigger] s[i]),
        r.0 < r.1 ==> !is_space(s[r.0]) && !is_space(s[r.1 - 1]),
{
    let a = law_trim_start_takes_blanks(s);
    let rest = s.skip(a);
    let n = law_trim_end_takes_blanks(rest);
    assert(rest.take(n) =~= s.subrange(a, a + n));
    assert forall|i: int| a + n <= i < s.len() implies is_space(#[trigger] s[i]) by {
        assert(rest[i - a] == s[i]);
    }
    if n > 0 {
        assert(rest[0] == s[a]);
        assert(rest[n - 1] == s[a + n - 1]);
    }
    (a, a + n)
}

/// A text that neither begins nor ends with a blank is trimmed to itself, whatever
/// blanks stand around it.
pub proof fn law_blanks_around_do_not_count(before: Seq<char>, s: Seq<char>, behind: Seq<char>)
    requires
        forall|i: int| 0 <= i < before.len() ==> is_space(#[trigger] before[i]),
        forall|i: int| 0 <= i < behind.len() ==> is_space(#[trigger] behind[i]),
        s.len() > 0 ==> !is_space(s[0]) && !is_space(s.last()),
    ensures
        trim(before + s + behind) == s,
        trim(s) == s,
{
    let whole = before + s + behind;
    let (a, b) = law_trim_takes_blanks(whole);
    let n = before.len() as int;
    let m = n + s.len();
    if s.len() > 0 {
        assert(whole[n] == s[0]);
        assert(whole[m - 1] == s.last());
        if a < n {
            assert(whole[a] == before[a]);
        }
        if b > m {
            assert(whole[b - 1] == behind[b - 1 - m]);
        }
        assert(a == n && b == m);
    } else if a < b {
        if a < n {
            assert(whole[a] == before[a]);
        } else {
            assert(whole[a] == behind[a - m]);
        }
    }
    assert(whole.subrange(a, b) =~= s);
    let (c, d) = law_trim_takes_blanks(s);
    if s.len() > 0 {
        assert(c == 0) by {
            if c > 0 {
                assert(is_space(s[0]));
            }
        }
        assert(d == s.len()) by {
            if d < s.len() {
                assert(is_space(s[s.len() - 1]));
            }
        }
    }
    assert(s.subrange(c, d) =~= s);
}

/// A text without a character at its end is the front of it up to the last other
/// character.
pub proof fn law_trim_end_of_takes_all(s: Seq<char>, c: char) -> (k: int)
    ensures
        0 <= k <= s.len(),
        trim_end_of(s, c) == s.take(k),
        forall|i: int| k <= i < s.len() ==> #[trigger] s[i] == c,
        k > 0 ==> s[k - 1] != c,
    decreases s.len(),
{
    if s.len() > 0 && s.last() == c {
        let k = law_trim_end_of_takes_all(s.drop_last(), c);
        assert(s.drop_last().take(k) =~= s.take(k));
        assert forall|i: int| k <= i < s.len() implies #[trigger] s[i] == c by {
            if i < s.len() - 1 {
                assert(s.drop_last()[i] == s[i]);
            }
        }
        k
    } else {
        assert(s.take(s.len() as int) =~= s);
        s.len() as int
    }
}

/// A text holds a pattern exactly where it is something, the pattern, and something
/// else.
pub proof fn law_containing_is_having_a_part(
    s: Seq<char>,
    pattern: Seq<char>,
    before: Seq<char>,
    behind: Seq<char>,
)
    ensures
        contains(before + pattern + behind, pattern),
        contains(s, pattern) ==> exists|a: Seq<char>, b: Seq<char>| s == #[trigger] (a + pattern + b),
        starts_with(pattern + behind, pattern),
        starts_with(s, pattern) ==> s == pattern + s.skip(pattern.len() as int),
{
    let whole = before + pattern + behind;
    let n = before.len() as int;
    assert(whole.subrange(n, n + pattern.len()) =~= pattern);
    assert(occurs_at(whole, pattern, n));
    if contains(s, pattern) {
        let i = choose|i: int| occurs_at(s, pattern, i);
        let a = s.take(i);
        let b = s.skip(i + pattern.len());
        assert(s =~= a + pattern + b) by {
            assert forall|j: int| 0 <= j < s.len() implies s[j] == (a + pattern + b)[j] by {
                if i <= j < i + pattern.len() {
                    assert(s.subrange(i, i + pattern.len())[j - i] == pattern[j - i]);
                }
            }
        }
    }
    assert((pattern + behind).subrange(0, pattern.len() as int) =~= pattern);
    if starts_with(s, pattern) {
        assert(s =~= pattern + s.skip(pattern.len() as int)) by {
            assert forall|j: int| 0 <= j < pattern.len() implies s[j] == pattern[j] by {
                assert(s.subrange(0, pattern.len() as int)[j] == pattern[j]);
            }
        }
    }
}

/// The first occurrence of a pattern is replaced, what stands before it stays, and
/// what stands behind it is replaced in the same way.
pub proof fn law_the_first_occurrence_is_replaced(
    before: Seq<char>,
    pattern: Seq<char>,
    behind: Seq<char>,
    with: Seq<char>,
)
    requires
        pattern.len() > 0,
        forall|j: int|
            0 <= j < before.len() ==> #[trigger] (before + pattern + behind).subrange(
                j,
                j + pattern.len(),
            ) != pattern,
    ensures
        replace_all(before + pattern + behind, pattern, with) == before + with + replace_all(
            behind,
            pattern,
            with,
        ),
    decreases before.len(),
{
    let whole = before + pattern + behind;
    if before.len() == 0 {
        assert(whole.subrange(0, pattern.len() as int) =~= pattern);
        assert(whole.skip(pattern.len() as int) =~= behind);
        assert(before + with + replace_all(behind, pattern, with) =~= with + replace_all(
            behind,
            pattern,
            with,
        ));
    } else {
        assert(whole.subrange(0, 0 + pattern.len() as int) != pattern);
        let rest = before.skip(1);
        let tail = rest + pattern + behind;
        assert(whole.skip(1) =~= tail);
        assert forall|j: int| 0 <= j < rest.len() implies #[trigger] tail.subrange(
            j,
            j + pattern.len(),
        ) != pattern by {
            assert(tail.subrange(j, j + pattern.len()) =~= whole.subrange(
                j + 1,
                j + 1 + pattern.len(),
            ));
        }
        law_the_first_occurrence_is_replaced(rest, pattern, behind, with);
        assert(seq![whole[0]] + (rest + with + replace_all(behind, pattern, with)) =~= before + with
            + replace_all(behind, pattern, with));
    }
}

/// Parts joined again give the text that they were cut from, no part holds the
/// character between them, and there is at least one part.
pub proof fn law_split_cuts_at_every_separator(s: Seq<char>, sep: char)
    ensures
        split(s, sep).len() > 0,
        join(split(s, sep), seq![sep]) == s,
        forall|k: int, i: int|
            0 <= k < split(s, sep).len() && 0 <= i < split(s, sep)[k].len() ==> #[trigger] split(
                s,
                sep,
            )[k][i] != sep,
    decreases s.len(),
{
    lemma_find_char(s, sep);
    match find_char(s, sep) {
        Some(i) => {
            let rest = s.skip(i + 1);
            law_split_cuts_at_every_separator(rest, sep);
            let first = seq![s.take(i)];
            law_join_puts_between(first, split(rest, sep), seq![sep]);
            assert(join(first, seq![sep]) == s.take(i));
            assert(s.take(i) + seq![sep] + rest =~= s);
            let all = split(s, sep);
            assert(all =~= first + split(rest, sep));
            assert forall|k: int, j: int|
                0 <= k < all.len() && 0 <= j < all[k].len() implies #[trigger] all[k][j] != sep by {
                if k > 0 {
                    assert(all[k] == split(rest, sep)[k - 1]);
                    assert(split(rest, sep)[k - 1][j] != sep);
                } else {
                    assert(all[0] == s.take(i));
                    assert(s.take(i)[j] == s[j]);
                }
            }
        },
        None => {
            assert(split(s, sep) =~= seq![s]);
            assert(split(s, sep)[0] == s);
        },
    }
}

/// Two lists of parts joined are what each of them joined gives, with the separator
/// between; one part alone is that part, and no parts are nothing.
pub proof fn law_join_puts_between(a: Seq<Seq<char>>, b: Seq<Seq<char>>, sep: Seq<char>)
    ensures
        a.len() > 0 && b.len() > 0 ==> join(a + b, sep) == join(a, sep) + sep + join(b, sep),
        a.len() == 1 ==> join(a, sep) == a[0],
        a.len() == 0 ==> join(a, sep).len() == 0,
    decreases b.len(),
{
    if a.len() > 0 && b.len() > 0 {
        assert((a + b).drop_last() =~= a + b.drop_last());
        assert((a + b).last() == b.last());
        if b.len() == 1 {
            assert(a + b.drop_last() =~= a);
        } else {
            law_join_puts_between(a, b.drop_last(), sep);
            assert(join(a, sep) + sep + join(b.drop_last(), sep) + sep + b.last() =~= join(a, sep)
                + sep + (join(b.drop_last(), sep) + sep + b.last()));
        }
    }
}

/// Parts that do not hold a character come back from the text that they were joined
/// to with it.
pub proof fn law_joined_parts_come_back(parts: Seq<Seq<char>>, sep: char)
    requires
        parts.len() > 0,
        forall|k: int, i: int|
            0 <= k < parts.len() && 0 <= i < parts[k].len() ==> #[trigger] parts[k][i] != sep,
    ensures
        split(join(parts, seq![sep]), sep) == parts,
    decreases parts.len(),
{
    let text = join(parts, seq![sep]);
    lemma_find_char(text, sep);
    if parts.len() == 1 {
        assert(text == parts[0]);
        assert(find_char(text, sep) is None) by {
            if let Some(i) = find_char(text, sep) {
                assert(parts[0][i] != sep);
            }
        }
        assert(split(text, sep) =~= parts);
    } else {
        let first = seq![parts[0]];
        let rest = parts.skip(1);
        assert(first + rest =~= parts);
        law_join_puts_between(first, rest, seq![sep]);
        let n = parts[0].len() as int;
        assert(text == parts[0] + seq![sep] + join(rest, seq![sep]));
        assert(text[n] == sep);
        assert(find_char(text, sep) == Some(n)) by {
            let i = find_char(text, sep)->0;
            if i < n {
                assert(parts[0][i] != sep);
                assert(text[i] == parts[0][i]);
            }
        }
        assert(text.take(n) =~= parts[0]);
        assert(text.skip(n + 1) =~= join(rest, seq![sep]));
        assert forall|k: int, i: int|
            0 <= k < rest.len() && 0 <= i < rest[k].len() implies #[trigger] rest[k][i] != sep by {
            assert(parts[k + 1][i] != sep);
        }
        law_joined_parts_come_back(rest, sep);
        assert(split(text, sep) =~= parts);
    }
}

/// A line ends with a line feed, or with a carriage return and a line feed; what
/// follows are further lines. The last line needs no ending, and an empty text has
/// no line.
pub proof fn law_lines_end_with_line_feeds(line: Seq<char>, rest: Seq<char>)
    requires
        forall|i: int| 0 <= i < line.len() ==> #[trigger] line[i] != '\n',
    ensures
        line.len() > 0 ==> lines(line) == seq![line],
        lines(Seq::<char>::empty()).len() == 0,
        lines(line + seq!['\r', '\n'] + rest) == seq![line] + lines(rest),
        line.len() == 0 || line.last() != '\r' ==> lines(line + seq!['\n'] + rest) == seq![line]
            + lines(rest),
{
    let n = line.len() as int;
    lemma_find_char(line, '\n');
    let wide = line + seq!['\r', '\n'] + rest;
    lemma_find_char(wide, '\n');
    assert(wide[n + 1] == '\n');
    assert(find_char(wide, '\n') == Some(n + 1)) by {
        let i = find_char(wide, '\n')->0;
        if i < n {
            assert(wide[i] == line[i]);
        } else if i == n {
            assert(wide[i] == '\r');
        }
    }
    assert(wide.take(n + 1) =~= line.push('\r'));
    assert(line.push('\r').drop_last() =~= line);
    assert(wide.skip(n + 2) =~= rest);
    let narrow = line + seq!['\n'] + rest;
    lemma_find_char(narrow, '\n');
    assert(narrow[n] == '\n');
    assert(find_char(narrow, '\n') == Some(n)) by {
        let i = find_char(narrow, '\n')->0;
        if i < n {
            assert(narrow[i] == line[i]);
        }
    }
    assert(narrow.take(n) =~= line);
    assert(narrow.skip(n + 1) =~= rest);
}

/// Where a text can be cut, the bytes of its two parts are the bytes before and
/// behind the cut, and together they are the text.
pub proof fn law_cuts_take_nothing_away(front: Seq<char>, back: Seq<char>)
    ensures
        encode_utf8(front + back) == encode_utf8(front) + encode_utf8(back),
        cuts_at(front + back, encode_utf8(front).len() as int),
        before_bytes(front + back, encode_utf8(front).len() as int) == front,
        after_bytes(front + back, encode_utf8(front).len() as int) == back,
    decreases front.len(),
{
    let all = front + back;
    let n = encode_utf8(front).len() as int;
    if front.len() == 0 {
        assert(all =~= back);
        encode_utf8_valid_utf8(all);
    } else {
        let rest = front.drop_first();
        assert(all.drop_first() =~= rest + back);
        law_cuts_take_nothing_away(rest, back);
        encode_utf8_first_scalar(all);
        assert(pop_first_scalar(encode_utf8(all)) =~= encode_utf8(rest + back));
        encode_utf8_valid_utf8(all);
    }
    assert(encode_utf8(all) =~= encode_utf8(front) + encode_utf8(back));
    assert(encode_utf8(all).take(n) =~= encode_utf8(front));
    assert(encode_utf8(all).skip(n) =~= encode_utf8(back));
    encode_utf8_decode_utf8(front);
    encode_utf8_decode_utf8(back);
}

/// A pattern in lower case is met at the start of a text by itself and by the same
/// letters in upper case.
pub proof fn law_case_does_not_count(pattern: Seq<char>, written: Seq<char>, rest: Seq<char>)
    requires
        written.len() == pattern.len(),
        forall|i: int|
            0 <= i < pattern.len() ==> (#[trigger] written[i] == pattern[i] || ('a' as int
                <= pattern[i] as int <= 'z' as int && written[i] as int == pattern[i] as int - 'a' as int
                + 'A' as int)),
    ensures
        starts_with_folded(written + rest, pattern),
{
    assert forall|i: int| 0 <= i < pattern.len() implies folds_to(
        #[trigger] (written + rest)[i],
        pattern[i],
    ) by {
        assert((written + rest)[i] == written[i]);
    }
}

/// A text that differs from a pattern in a character, letter case aside, does not
/// begin with it; nor does a shorter one.
pub proof fn law_other_texts_do_not_begin(s: Seq<char>, pattern: Seq<char>, i: int)
    requires
        0 <= i < pattern.len(),
        i < s.len() ==> s[i] != pattern[i] && !('A' as int <= s[i] as int <= 'Z' as int && s[i] as int
            + 32 == pattern[i] as int),
    ensures
        !starts_with_folded(s, pattern),
{
    if starts_with_folded(s, pattern) {
        assert(folds_to(s[i], pattern[i]));
    }
}

/// Whether a text is something, another text, and something else.
pub open spec fn stands_in(part: Seq<char>, whole: Seq<char>) -> bool {
    exists|a: Seq<char>, b: Seq<char>| whole == #[trigger] (a + part + b)
}

/// A text holds a pattern exactly where the pattern stands in it.
pub proof fn law_containing_is_standing_in(s: Seq<char>, pattern: Seq<char>)
    ensures
        contains(s, pattern) <==> stands_in(pattern, s),
{
    law_containing_is_having_a_part(s, pattern, Seq::empty(), Seq::empty());
    if stands_in(pattern, s) {
        let (a, b) = choose|a: Seq<char>, b: Seq<char>| s == #[trigger] (a + pattern + b);
        law_containing_is_having_a_part(s, pattern, a, b);
    }
}

/// Parts that hold no line feed, put one below the other, are the lines of the text,
/// but for a carriage return at the end of a line that has an ending.
pub proof fn law_lines_put_together_come_back(parts: Seq<Seq<char>>)
    requires
        parts.len() > 0,
        parts.last().len() > 0,
        forall|k: int, i: int|
            0 <= k < parts.len() && 0 <= i < parts[k].len() ==> #[trigger] parts[k][i] != '\n',
    ensures
        ({
            let found = lines(join(parts, seq!['\n']));
            &&& found.len() == parts.len()
            &&& found.last() == parts.last()
            &&& forall|k: int|
                0 <= k < parts.len() - 1 ==> (if parts[k].len() > 0 && parts[k].last() == '\r' {
                    #[trigger] found[k] == parts[k].drop_last()
                } else {
                    found[k] == parts[k]
                })
        }),
    decreases parts.len(),
{
    let text = join(parts, seq!['\n']);
    lemma_find_char(text, '\n');
    if parts.len() == 1 {
        assert(text == parts[0]);
        if let Some(i) = find_char(text, '\n') {
            assert(parts[0][i] != '\n');
        }
        assert(lines(text) =~= seq![text]);
    } else {
        let first = seq![parts[0]];
        let rest = parts.skip(1);
        assert(first + rest =~= parts);
        law_join_puts_between(first, rest, seq!['\n']);
        let n = parts[0].len() as int;
        assert(text == parts[0] + seq!['\n'] + join(rest, seq!['\n']));
        assert(text[n] == '\n');
        assert(find_char(text, '\n') == Some(n)) by {
            let i = find_char(text, '\n')->0;
            if i < n {
                assert(parts[0][i] != '\n');
                assert(text[i] == parts[0][i]);
            }
        }
        assert(text.take(n) =~= parts[0]);
        assert(text.skip(n + 1) =~= join(rest, seq!['\n']));
        assert forall|k: int, i: int|
            0 <= k < rest.len() && 0 <= i < rest[k].len() implies #[trigger] rest[k][i] != '\n' by {
            assert(parts[k + 1][i] != '\n');
        }
        law_lines_put_together_come_back(rest);
        let found = lines(text);
        let later = lines(join(rest, seq!['\n']));
        assert(found =~= seq![strip_return(parts[0])] + later);
        assert forall|k: int| 0 <= k < parts.len() - 1 implies (if parts[k].len() > 0
            && parts[k].last() == '\r' {
            #[trigger] found[k] == parts[k].drop_last()
        } else {
            found[k] == parts[k]
        }) by {
            if k > 0 {
                assert(found[k] == later[k - 1]);
                assert(rest[k - 1] == parts[k]);
            }
        }
        assert(found.last() == later.last());
        assert(rest.last() == parts.last());
    }
}

/// Blanks behind a text that does not end with one are trimmed off.
pub proof fn law_blanks_behind_do_not_count(s: Seq<char>, behind: Seq<char>)
    requires
        forall|i: int| 0 <= i < behind.len() ==> is_space(#[trigger] behind[i]),
        s.len() > 0 ==> !is_space(s.last()),
    ensures
        trim_end(s + behind) == s,
{
    let whole = s + behind;
    let k = law_trim_end_takes_blanks(whole);
    let n = s.len() as int;
    if k < n {
        assert(whole[n - 1] == s.last());
    }
    if k > n {
        assert(whole[k - 1] == behind[k - 1 - n]);
    }
    assert(whole.take(n) =~= s);
}

/// Beyond ASCII, blanks are the next line, the spaces that do not break, those of set
/// widths, the ideographic one, and the separators of lines and paragraphs.
pub proof fn law_other_blanks(c: char)
    requires
        c as int >= 128,
    ensures
        is_space(c) <==> (c as int == 0x85 || c as int == 0xa0 || c as int == 0x1680 || 0x2000
            <= c as int <= 0x200a || c as int == 0x2028 || c as int == 0x2029 || c as int == 0x202f
            || c as int == 0x205f || c as int == 0x3000),
{
}

/// What is found is the first place where a pattern stands; nothing is found only where it
/// stands nowhere.
pub proof fn law_the_first_place_is_found(s: Seq<char>, pattern: Seq<char>, i: int, c: char)
    ensures
        (0 <= i && i + pattern.len() <= s.len() && s.subrange(i, i + pattern.len()) == pattern && (
        forall|j: int| 0 <= j < i ==> #[trigger] s.subrange(j, j + pattern.len()) != pattern))
            ==> find(s, pattern) == Some(i),
        find(s, pattern) is None <==> !stands_in(pattern, s),
        (0 <= i < s.len() && s[i] == c && forall|j: int| 0 <= j < i ==> #[trigger] s[j] != c)
            ==> find_char(s, c) == Some(i),
        (forall|j: int| 0 <= j < s.len() ==> #[trigger] s[j] != c) ==> find_char(s, c) is None,
{
    lemma_find_from(s, pattern, 0);
    law_containing_is_standing_in(s, pattern);
    if 0 <= i && i + pattern.len() <= s.len() && s.subrange(i, i + pattern.len()) == pattern && (
    forall|j: int| 0 <= j < i ==> #[trigger] s.subrange(j, j + pattern.len()) != pattern) {
        assert(occurs_at(s, pattern, i));
        let k = find(s, pattern)->0;
        if k < i {
            assert(s.subrange(k, k + pattern.len()) == pattern);
        }
    }
    lemma_find_char(s, c);
    if 0 <= i < s.len() && s[i] == c && (forall|j: int| 0 <= j < i ==> #[trigger] s[j] != c) {
        let k = find_char(s, c)->0;
        if k < i {
            assert(s[k] != c);
        }
    }
}

} // verus!
