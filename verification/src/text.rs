//! Character-level text primitives shared by the annotation parser, the
//! version literal engine and the update orchestrator.
//!
//! Text is modelled as `Seq<char>`. Executable code works on `Vec<char>`
//! (obtained once per string with [`chars_of`]) so that every index is a
//! character index.

use vstd::prelude::*;

verus! {

/// Assumed of the standard library: `String::push` appends exactly one
/// character and keeps what was there.
pub assume_specification[ String::push ](s: &mut String, ch: char)
    ensures
        final(s)@ == old(s)@.push(ch),
;

/// The characters of `s`, in order.
pub fn chars_of(s: &str) -> (chars: Vec<char>)
    ensures
        chars@ == s@,
{
    let mut chars: Vec<char> = Vec::new();
    for c in it: s.chars()
        invariant
            it.seq() == s@,
            chars@ == it.seq().take(it.index() as int),
    {
        chars.push(c);
    }
    chars
}

/// The string that holds exactly the characters `chars[from..to]`.
pub fn string_of(chars: &Vec<char>, from: usize, to: usize) -> (s: String)
    requires
        from <= to <= chars.len(),
    ensures
        s@ == chars@.subrange(from as int, to as int),
{
    let mut s = String::new();
    let mut i: usize = from;
    while i < to
        invariant
            from <= i <= to <= chars.len(),
            s@ == chars@.subrange(from as int, i as int),
        decreases to - i,
    {
        s.push(chars[i]);
        i += 1;
    }
    s
}

/// Whether `c` has the Unicode `White_Space` property.
pub open spec fn is_whitespace(c: char) -> bool {
    let u = c as u32;
    ||| 0x09 <= u <= 0x0D
    ||| u == 0x20
    ||| u == 0x85
    ||| u == 0xA0
    ||| u == 0x1680
    ||| 0x2000 <= u <= 0x200A
    ||| u == 0x2028
    ||| u == 0x2029
    ||| u == 0x202F
    ||| u == 0x205F
    ||| u == 0x3000
}

/// Decides [`is_whitespace`].
pub fn char_is_whitespace(c: char) -> (yes: bool)
    ensures
        yes == is_whitespace(c),
{
    let u: u32 = c as u32;
    (0x09 <= u && u <= 0x0D) || u == 0x20 || u == 0x85 || u == 0xA0 || u == 0x1680 || (0x2000 <= u
        && u <= 0x200A) || u == 0x2028 || u == 0x2029 || u == 0x202F || u == 0x205F || u == 0x3000
}

/// The first index at or after `from` that holds no whitespace, or the
/// length of `s` when only whitespace follows.
pub open spec fn skip_space(s: Seq<char>, from: int) -> int
    decreases s.len() - from,
{
    if 0 <= from < s.len() && is_whitespace(s[from]) {
        skip_space(s, from + 1)
    } else {
        from
    }
}

/// The first index at or after `from` that holds whitespace, or the length
/// of `s` when none follows.
pub open spec fn skip_token(s: Seq<char>, from: int) -> int
    decreases s.len() - from,
{
    if 0 <= from < s.len() && !is_whitespace(s[from]) {
        skip_token(s, from + 1)
    } else {
        from
    }
}

/// The end of `s[..to]` once its trailing whitespace is cut off.
pub open spec fn drop_trailing_space(s: Seq<char>, to: int) -> int
    decreases to,
{
    if 0 < to <= s.len() && is_whitespace(s[to - 1]) {
        drop_trailing_space(s, to - 1)
    } else {
        to
    }
}

/// `s` without its leading and trailing whitespace.
pub open spec fn trim(s: Seq<char>) -> Seq<char> {
    let start = skip_space(s, 0);
    let end = drop_trailing_space(s, s.len() as int);
    if start < end {
        s.subrange(start, end)
    } else {
        Seq::empty()
    }
}

/// The first whitespace-delimited token of `s`, if `s` holds anything but
/// whitespace.
pub open spec fn first_token(s: Seq<char>) -> Option<Seq<char>> {
    let start = skip_space(s, 0);
    if start < s.len() {
        Some(s.subrange(start, skip_token(s, start)))
    } else {
        None
    }
}

/// What [`skip_space`] returns lies between `from` and the end, everything
/// before it is whitespace, and it does not rest on whitespace.
pub proof fn lemma_skip_space(s: Seq<char>, from: int)
    requires
        0 <= from <= s.len(),
    ensures
        from <= skip_space(s, from) <= s.len(),
        forall|k: int| from <= k < skip_space(s, from) ==> is_whitespace(#[trigger] s[k]),
        skip_space(s, from) < s.len() ==> !is_whitespace(s[skip_space(s, from)]),
    decreases s.len() - from,
{
    if from < s.len() && is_whitespace(s[from]) {
        lemma_skip_space(s, from + 1);
    }
}

/// What [`skip_token`] returns lies between `from` and the end, nothing
/// before it is whitespace, and it rests on whitespace unless it is the end.
pub proof fn lemma_skip_token(s: Seq<char>, from: int)
    requires
        0 <= from <= s.len(),
    ensures
        from <= skip_token(s, from) <= s.len(),
        forall|k: int| from <= k < skip_token(s, from) ==> !is_whitespace(#[trigger] s[k]),
        skip_token(s, from) < s.len() ==> is_whitespace(s[skip_token(s, from)]),
    decreases s.len() - from,
{
    if from < s.len() && !is_whitespace(s[from]) {
        lemma_skip_token(s, from + 1);
    }
}

/// What [`drop_trailing_space`] returns lies between the start and `to`,
/// everything after it is whitespace, and the character before it is not.
pub proof fn lemma_drop_trailing_space(s: Seq<char>, to: int)
    requires
        0 <= to <= s.len(),
    ensures
        0 <= drop_trailing_space(s, to) <= to,
        forall|k: int| drop_trailing_space(s, to) <= k < to ==> is_whitespace(#[trigger] s[k]),
        drop_trailing_space(s, to) > 0 ==> !is_whitespace(s[drop_trailing_space(s, to) - 1]),
    decreases to,
{
    if 0 < to && is_whitespace(s[to - 1]) {
        lemma_drop_trailing_space(s, to - 1);
    }
}

/// Computes [`skip_space`].
pub fn skip_space_from(chars: &Vec<char>, from: usize) -> (next: usize)
    requires
        from <= chars.len(),
    ensures
        next == skip_space(chars@, from as int),
        from <= next <= chars.len(),
{
    let mut i: usize = from;
    while i < chars.len() && char_is_whitespace(chars[i])
        invariant
            from <= i <= chars.len(),
            skip_space(chars@, from as int) == skip_space(chars@, i as int),
        decreases chars.len() - i,
    {
        i += 1;
    }
    i
}

/// Computes [`skip_token`].
pub fn skip_token_from(chars: &Vec<char>, from: usize) -> (next: usize)
    requires
        from <= chars.len(),
    ensures
        next == skip_token(chars@, from as int),
        from <= next <= chars.len(),
{
    let mut i: usize = from;
    while i < chars.len() && !char_is_whitespace(chars[i])
        invariant
            from <= i <= chars.len(),
            skip_token(chars@, from as int) == skip_token(chars@, i as int),
        decreases chars.len() - i,
    {
        i += 1;
    }
    i
}

/// Computes [`drop_trailing_space`].
pub fn drop_trailing_space_to(chars: &Vec<char>, to: usize) -> (end: usize)
    requires
        to <= chars.len(),
    ensures
        end == drop_trailing_space(chars@, to as int),
        end <= to,
{
    let mut i: usize = to;
    while i > 0 && char_is_whitespace(chars[i - 1])
        invariant
            i <= to <= chars.len(),
            drop_trailing_space(chars@, to as int) == drop_trailing_space(chars@, i as int),
        decreases i,
    {
        i -= 1;
    }
    i
}

/// A copy of `chars[from..to]`.
pub fn copy_range(chars: &Vec<char>, from: usize, to: usize) -> (part: Vec<char>)
    requires
        from <= to <= chars.len(),
    ensures
        part@ == chars@.subrange(from as int, to as int),
{
    let mut part: Vec<char> = Vec::new();
    let mut i: usize = from;
    while i < to
        invariant
            from <= i <= to <= chars.len(),
            part@ == chars@.subrange(from as int, i as int),
        decreases to - i,
    {
        part.push(chars[i]);
        i += 1;
    }
    part
}

/// Computes [`trim`].
pub fn trim_chars(chars: &Vec<char>) -> (trimmed: Vec<char>)
    ensures
        trimmed@ == trim(chars@),
{
    let start = skip_space_from(chars, 0);
    let end = drop_trailing_space_to(chars, chars.len());
    if start < end {
        copy_range(chars, start, end)
    } else {
        Vec::new()
    }
}

/// Computes [`first_token`].
pub fn first_token_of(chars: &Vec<char>) -> (token: Option<Vec<char>>)
    ensures
        token is Some == first_token(chars@) is Some,
        token matches Some(t) ==> t@ == first_token(chars@).unwrap(),
{
    let start = skip_space_from(chars, 0);
    if start < chars.len() {
        let end = skip_token_from(chars, start);
        Some(copy_range(chars, start, end))
    } else {
        None
    }
}

/// Whether `needle` stands in `hay` at index `at`.
pub open spec fn occurs_at(hay: Seq<char>, needle: Seq<char>, at: int) -> bool {
    &&& 0 <= at
    &&& at + needle.len() <= hay.len()
    &&& hay.subrange(at, at + needle.len()) == needle
}

/// The index of the first occurrence of `needle` in `hay` at or after
/// `from`, if there is one.
pub open spec fn find_from(hay: Seq<char>, needle: Seq<char>, from: int) -> Option<int>
    decreases hay.len() + 1 - from,
{
    if from < 0 || from + needle.len() > hay.len() {
        None
    } else if occurs_at(hay, needle, from) {
        Some(from)
    } else {
        find_from(hay, needle, from + 1)
    }
}

/// The index of the first occurrence of `needle` in `hay`, if there is one.
pub open spec fn find(hay: Seq<char>, needle: Seq<char>) -> Option<int> {
    find_from(hay, needle, 0)
}

/// Whether `s` begins with `prefix`.
pub open spec fn starts_with(s: Seq<char>, prefix: Seq<char>) -> bool {
    occurs_at(s, prefix, 0)
}

/// [`find_from`] returns an occurrence, and no occurrence lies between `from`
/// and it; it returns nothing exactly when no occurrence lies at or after
/// `from`.
pub proof fn lemma_find_from(hay: Seq<char>, needle: Seq<char>, from: int)
    requires
        0 <= from,
    ensures
        match find_from(hay, needle, from) {
            Some(at) => {
                &&& from <= at
                &&& occurs_at(hay, needle, at)
                &&& forall|k: int| from <= k < at ==> !occurs_at(hay, needle, k)
            },
            None => forall|k: int| from <= k ==> !occurs_at(hay, needle, k),
        },
    decreases hay.len() + 1 - from,
{
    if from + needle.len() > hay.len() {
    } else if occurs_at(hay, needle, from) {
    } else {
        lemma_find_from(hay, needle, from + 1);
    }
}

/// Decides [`occurs_at`].
pub fn occurs_at_index(hay: &Vec<char>, needle: &Vec<char>, at: usize) -> (yes: bool)
    ensures
        yes == occurs_at(hay@, needle@, at as int),
{
    if needle.len() > hay.len() || at > hay.len() - needle.len() {
        return false;
    }
    let mut i: usize = 0;
    while i < needle.len()
        invariant
            i <= needle.len(),
            at + needle.len() <= hay.len(),
            forall|k: int| 0 <= k < i ==> hay@[at + k] == needle@[k],
        decreases needle.len() - i,
    {
        if hay[at + i] != needle[i] {
            return false;
        }
        i += 1;
    }
    assert(hay@.subrange(at as int, at + needle.len()) =~= needle@);
    true
}

/// Computes [`find`].
pub fn find_first(hay: &Vec<char>, needle: &Vec<char>) -> (found: Option<usize>)
    ensures
        found is Some == find(hay@, needle@) is Some,
        found matches Some(at) ==> find(hay@, needle@) == Some(at as int) && at + needle.len()
            <= hay.len(),
{
    if needle.len() > hay.len() {
        return None;
    }
    let last: usize = hay.len() - needle.len();
    let mut i: usize = 0;
    loop
        invariant
            i <= last,
            last == hay.len() - needle.len(),
            find(hay@, needle@) == find_from(hay@, needle@, i as int),
        decreases last - i,
    {
        if occurs_at_index(hay, needle, i) {
            return Some(i);
        }
        if i == last {
            assert(find_from(hay@, needle@, i + 1) is None);
            return None;
        }
        i += 1;
    }
}

} // verus!
