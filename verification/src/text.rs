//! Text as a sequence of characters: trimming, splitting, searching, numbers.
//!
//! Every function here works on the characters of a string and is stated over `Seq<char>`.
use vstd::prelude::*;

verus! {

// ---------------------------------------------------------------------------
// Characters and strings
// ---------------------------------------------------------------------------

/// The character sequences of a list of pieces.
pub open spec fn pieces(list: Seq<Vec<char>>) -> Seq<Seq<char>> {
    Seq::new(list.len(), |i: int| list[i]@)
}

/// The characters of `s`, in order.
pub fn chars_of(s: &str) -> (chars: Vec<char>)
    ensures
        chars@ == s@,
{
    let mut chars: Vec<char> = Vec::new();
    for c in it: s.chars()
        invariant
            chars@ == s@.take(it.index()),
            it.seq() == s@,
    {
        chars.push(c);
        assert(s@.take(it.index() + 1) == s@.take(it.index()).push(c));
    }
    assert(s@.take(s@.len() as int) == s@);
    chars
}

/// The string made of `chars`.
pub fn string_of(chars: &Vec<char>) -> (s: String)
    ensures
        s@ == chars@,
{
    let mut s = String::new();
    let mut i: usize = 0;
    while i < chars.len()
        invariant
            i <= chars.len(),
            s@ == chars@.take(i as int),
        decreases chars.len() - i,
    {
        s.push(chars[i]);
        assert(chars@.take(i + 1) == chars@.take(i as int).push(chars@[i as int]));
        i = i + 1;
    }
    assert(chars@.take(chars@.len() as int) == chars@);
    s
}

/// The characters of `s` from `from` up to but not including `to`.
pub fn copy_range(s: &Vec<char>, from: usize, to: usize) -> (part: Vec<char>)
    requires
        from <= to <= s@.len(),
    ensures
        part@ == s@.subrange(from as int, to as int),
{
    let mut part: Vec<char> = Vec::new();
    let mut i: usize = from;
    while i < to
        invariant
            from <= i <= to <= s@.len(),
            part@ == s@.subrange(from as int, i as int),
        decreases to - i,
    {
        part.push(s[i]);
        assert(s@.subrange(from as int, i + 1) == s@.subrange(from as int, i as int).push(
            s@[i as int],
        ));
        i = i + 1;
    }
    part
}

/// Whether two character lists are the same.
pub fn chars_eq(a: &Vec<char>, b: &Vec<char>) -> (same: bool)
    ensures
        same == (a@ == b@),
{
    if a.len() != b.len() {
        return false;
    }
    let mut i: usize = 0;
    while i < a.len()
        invariant
            i <= a@.len(),
            a@.len() == b@.len(),
            a@.take(i as int) == b@.take(i as int),
        decreases a@.len() - i,
    {
        if a[i] != b[i] {
            assert(a@[i as int] != b@[i as int]);
            return false;
        }
        assert(a@.take(i + 1) == a@.take(i as int).push(a@[i as int]));
        assert(b@.take(i + 1) == b@.take(i as int).push(b@[i as int]));
        i = i + 1;
    }
    assert(a@.take(a@.len() as int) == a@);
    assert(b@.take(b@.len() as int) == b@);
    true
}

/// Whether two strings hold the same characters.
pub fn str_eq(a: &str, b: &str) -> (same: bool)
    ensures
        same == (a@ == b@),
{
    chars_eq(&chars_of(a), &chars_of(b))
}

// ---------------------------------------------------------------------------
// White space
// ---------------------------------------------------------------------------

/// The characters with the Unicode property `White_Space`.
pub open spec fn white(c: char) -> bool {
    let u = c as u32;
    ||| 0x9 <= u <= 0xd
    ||| u == 0x20
    ||| u == 0x85
    ||| u == 0xa0
    ||| u == 0x1680
    ||| 0x2000 <= u <= 0x200a
    ||| u == 0x2028
    ||| u == 0x2029
    ||| u == 0x202f
    ||| u == 0x205f
    ||| u == 0x3000
}

/// Whether `c` is white space.
pub fn is_white(c: char) -> (b: bool)
    ensures
        b == white(c),
{
    let u: u32 = c as u32;
    (0x9 <= u && u <= 0xd) || u == 0x20 || u == 0x85 || u == 0xa0 || u == 0x1680 || (0x2000 <= u
        && u <= 0x200a) || u == 0x2028 || u == 0x2029 || u == 0x202f || u == 0x205f || u == 0x3000
}

/// `s` without the white space it starts with.
pub open spec fn trim_start(s: Seq<char>) -> Seq<char>
    decreases s.len(),
{
    if s.len() > 0 && white(s[0]) {
        trim_start(s.subrange(1, s.len() as int))
    } else {
        s
    }
}

/// `s` without the white space it ends with.
pub open spec fn trim_end(s: Seq<char>) -> Seq<char>
    decreases s.len(),
{
    if s.len() > 0 && white(s[s.len() - 1]) {
        trim_end(s.subrange(0, s.len() - 1))
    } else {
        s
    }
}

/// `s` without the white space at its two ends.
pub open spec fn trimmed(s: Seq<char>) -> Seq<char> {
    trim_end(trim_start(s))
}

/// Behind a character that is no white space, only what follows it is trimmed.
pub proof fn trim_end_behind(a: Seq<char>, b: Seq<char>)
    requires
        a.len() > 0,
        !white(a[a.len() - 1]),
    ensures
        trim_end(a + b) == a + trim_end(b),
    decreases b.len(),
{
    let all = a + b;
    if b.len() == 0 {
        assert(all == a);
    } else {
        let rest = b.subrange(0, b.len() - 1);
        assert(all[all.len() - 1] == b[b.len() - 1]);
        assert(all.subrange(0, all.len() - 1) == a + rest);
        trim_end_behind(a, rest);
    }
}

/// `s` without the white space it ends with.
pub fn trim_end_of(s: &Vec<char>) -> (t: Vec<char>)
    ensures
        t@ == trim_end(s@),
{
    let mut j: usize = s.len();
    assert(s@.subrange(0, s@.len() as int) == s@);
    while j > 0 && is_white(s[j - 1])
        invariant
            j <= s@.len(),
            trim_end(s@) == trim_end(s@.subrange(0, j as int)),
        decreases j,
    {
        assert(s@.subrange(0, j as int).subrange(0, j - 1) == s@.subrange(0, j - 1));
        j = j - 1;
    }
    copy_range(s, 0, j)
}

/// `s` without the white space at its two ends.
pub fn trim(s: &Vec<char>) -> (t: Vec<char>)
    ensures
        t@ == trimmed(s@),
{
    let mut i: usize = 0;
    assert(s@.subrange(0, s@.len() as int) == s@);
    while i < s.len() && is_white(s[i])
        invariant
            i <= s@.len(),
            trim_start(s@) == trim_start(s@.subrange(i as int, s@.len() as int)),
        decreases s@.len() - i,
    {
        let ghost rest = s@.subrange(i as int, s@.len() as int);
        assert(rest.subrange(1, rest.len() as int) == s@.subrange(i + 1, s@.len() as int));
        i = i + 1;
    }
    let rest = copy_range(s, i, s.len());
    trim_end_of(&rest)
}

/// `s` without the white space at its two ends.
pub fn trim_str(s: &str) -> (t: String)
    ensures
        t@ == trimmed(s@),
{
    string_of(&trim(&chars_of(s)))
}

// ---------------------------------------------------------------------------
// Prefixes, suffixes and occurrences
// ---------------------------------------------------------------------------

/// Whether `needle` stands in `hay` at index `at`.
pub open spec fn occurs_at(hay: Seq<char>, needle: Seq<char>, at: int) -> bool {
    &&& 0 <= at
    &&& at + needle.len() <= hay.len()
    &&& hay.subrange(at, at + needle.len()) == needle
}

/// Whether `s` begins with `prefix`.
pub open spec fn has_prefix(s: Seq<char>, prefix: Seq<char>) -> bool {
    occurs_at(s, prefix, 0)
}

/// Whether `s` ends with `suffix`.
pub open spec fn has_suffix(s: Seq<char>, suffix: Seq<char>) -> bool {
    occurs_at(s, suffix, s.len() - suffix.len())
}

/// Whether `needle` occurs anywhere in `hay`.
pub open spec fn occurs(hay: Seq<char>, needle: Seq<char>) -> bool {
    exists|at: int| occurs_at(hay, needle, at)
}

/// The first occurrence of `needle` in `hay` at or after `from`.
pub open spec fn next_occurrence(hay: Seq<char>, needle: Seq<char>, from: int) -> Option<int>
    decreases hay.len() + 1 - from,
{
    if from + needle.len() > hay.len() {
        None
    } else if occurs_at(hay, needle, from) {
        Some(from)
    } else {
        next_occurrence(hay, needle, from + 1)
    }
}

/// `next_occurrence` finds the first occurrence where there is one, and nothing else.
pub proof fn next_occurrence_is_first(hay: Seq<char>, needle: Seq<char>, from: int)
    requires
        0 <= from,
    ensures
        match next_occurrence(hay, needle, from) {
            Some(at) => {
                &&& from <= at
                &&& occurs_at(hay, needle, at)
                &&& forall|i: int| from <= i < at ==> !occurs_at(hay, needle, i)
            },
            None => forall|i: int| from <= i ==> !occurs_at(hay, needle, i),
        },
    decreases hay.len() + 1 - from,
{
    if from + needle.len() > hay.len() {
    } else if occurs_at(hay, needle, from) {
    } else {
        next_occurrence_is_first(hay, needle, from + 1);
    }
}

/// Whether `needle` stands in `hay` at `at`.
pub fn matches_at(hay: &Vec<char>, needle: &Vec<char>, at: usize) -> (b: bool)
    ensures
        b == occurs_at(hay@, needle@, at as int),
{
    if needle.len() > hay.len() || at > hay.len() - needle.len() {
        return false;
    }
    let ghost window = hay@.subrange(at as int, at + needle@.len());
    let mut i: usize = 0;
    while i < needle.len()
        invariant
            i <= needle.len(),
            at + needle.len() <= hay.len(),
            window == hay@.subrange(at as int, at + needle@.len()),
            forall|k: int| 0 <= k < i ==> window[k] == needle@[k],
        decreases needle@.len() - i,
    {
        if hay[at + i] != needle[i] {
            assert(window[i as int] != needle@[i as int]);
            return false;
        }
        i = i + 1;
    }
    assert(window =~= needle@);
    true
}

/// The first occurrence of `needle` in `hay` at or after `from`.
pub fn find_from(hay: &Vec<char>, needle: &Vec<char>, from: usize) -> (at: Option<usize>)
    ensures
        next_occurrence(hay@, needle@, from as int) == (match at {
            Some(p) => Some(p as int),
            None => None,
        }),
        match at {
            Some(p) => from <= p && p + needle@.len() <= hay@.len(),
            None => true,
        },
{
    let mut i: usize = from;
    while needle.len() <= hay.len() && i <= hay.len() - needle.len()
        invariant
            from <= i,
            i <= hay@.len() + 1 || i == from,
            next_occurrence(hay@, needle@, from as int) == next_occurrence(
                hay@,
                needle@,
                i as int,
            ),
        decreases hay@.len() + 1 - i,
    {
        if matches_at(hay, needle, i) {
            return Some(i);
        }
        assert(needle@.len() > 0) by {
            if needle@.len() == 0 {
                assert(hay@.subrange(i as int, i as int) =~= needle@);
            }
        }
        i = i + 1;
    }
    None
}

/// Whether `needle` occurs anywhere in `hay`.
pub fn contains(hay: &Vec<char>, needle: &Vec<char>) -> (b: bool)
    ensures
        b == occurs(hay@, needle@),
{
    proof {
        next_occurrence_is_first(hay@, needle@, 0);
    }
    match find_from(hay, needle, 0) {
        Some(p) => {
            assert(occurs_at(hay@, needle@, p as int));
            true
        },
        None => false,
    }
}

/// Whether `s` begins with `prefix`.
pub fn starts_with(s: &Vec<char>, prefix: &str) -> (b: bool)
    ensures
        b == has_prefix(s@, prefix@),
{
    matches_at(s, &chars_of(prefix), 0)
}

/// Whether `s` ends with `suffix`.
pub fn ends_with(s: &Vec<char>, suffix: &str) -> (b: bool)
    ensures
        b == has_suffix(s@, suffix@),
{
    let tail = chars_of(suffix);
    if tail.len() > s.len() {
        return false;
    }
    matches_at(s, &tail, s.len() - tail.len())
}

/// What follows `prefix` in `s`, where `s` begins with it.
pub open spec fn after_prefix(s: Seq<char>, prefix: Seq<char>) -> Option<Seq<char>> {
    if has_prefix(s, prefix) {
        Some(s.subrange(prefix.len() as int, s.len() as int))
    } else {
        None
    }
}

/// What follows `prefix` in `s`, where `s` begins with it.
pub fn strip_prefix(s: &Vec<char>, prefix: &str) -> (rest: Option<Vec<char>>)
    ensures
        after_prefix(s@, prefix@) == (match rest {
            Some(r) => Some(r@),
            None => None,
        }),
{
    let head = chars_of(prefix);
    if matches_at(s, &head, 0) {
        Some(copy_range(s, head.len(), s.len()))
    } else {
        None
    }
}

/// The index of the first `c` in `s`, or the length of `s` where it has none.
pub open spec fn position(s: Seq<char>, c: char) -> int
    decreases s.len(),
{
    if s.len() == 0 || s[0] == c {
        0
    } else {
        1 + position(s.subrange(1, s.len() as int), c)
    }
}

/// The index of the first `c` in `s`, or the length of `s` where it has none.
pub fn position_of(s: &Vec<char>, c: char) -> (at: usize)
    ensures
        at == position(s@, c),
        at <= s@.len(),
        at < s@.len() ==> s@[at as int] == c,
{
    let mut i: usize = 0;
    assert(s@.subrange(0, s@.len() as int) == s@);
    while i < s.len() && s[i] != c
        invariant
            i <= s@.len(),
            position(s@, c) == i + position(s@.subrange(i as int, s@.len() as int), c),
        decreases s@.len() - i,
    {
        let ghost rest = s@.subrange(i as int, s@.len() as int);
        assert(rest.subrange(1, rest.len() as int) == s@.subrange(i + 1, s@.len() as int));
        i = i + 1;
    }
    i
}

// ---------------------------------------------------------------------------
// Splitting
// ---------------------------------------------------------------------------

/// The parts of `s` between the separators: one more than there are separators.
pub open spec fn split(s: Seq<char>, sep: char) -> Seq<Seq<char>>
    decreases s.len(),
{
    if s.len() == 0 {
        seq![Seq::<char>::empty()]
    } else {
        let before = split(s.subrange(0, s.len() - 1), sep);
        let c = s[s.len() - 1];
        if c == sep {
            before.push(Seq::<char>::empty())
        } else {
            before.update(before.len() - 1, before[before.len() - 1].push(c))
        }
    }
}

/// The parts of `list` with `sep` between each two.
pub open spec fn joined(list: Seq<Seq<char>>, sep: Seq<char>) -> Seq<char>
    decreases list.len(),
{
    if list.len() == 0 {
        seq![]
    } else if list.len() == 1 {
        list[0]
    } else {
        joined(list.subrange(0, list.len() - 1), sep) + sep + list[list.len() - 1]
    }
}

/// Splitting always gives at least one part.
pub proof fn split_is_nonempty(s: Seq<char>, sep: char)
    ensures
        split(s, sep).len() >= 1,
    decreases s.len(),
{
    if s.len() > 0 {
        split_is_nonempty(s.subrange(0, s.len() - 1), sep);
    }
}

/// Splitting loses nothing: the parts hold no separator, and joined by it they are the text.
pub proof fn split_joins_back(s: Seq<char>, sep: char)
    ensures
        joined(split(s, sep), seq![sep]) == s,
        forall|i: int, j: int|
            0 <= i < split(s, sep).len() && 0 <= j < split(s, sep)[i].len() ==> split(
                s,
                sep,
            )[i][j] != sep,
    decreases s.len(),
{
    split_is_nonempty(s, sep);
    if s.len() == 0 {
    } else {
        let init = s.subrange(0, s.len() - 1);
        let c = s[s.len() - 1];
        let before = split(init, sep);
        split_joins_back(init, sep);
        split_is_nonempty(init, sep);
        let all = split(s, sep);
        assert(s == init.push(c));
        if c == sep {
            assert(all.subrange(0, all.len() - 1) == before);
            assert(joined(all, seq![sep]) == init + seq![sep] + Seq::<char>::empty());
        } else {
            let last = before[before.len() - 1];
            if before.len() == 1 {
                assert(all == seq![last.push(c)]);
            } else {
                assert(all.subrange(0, all.len() - 1) == before.subrange(0, before.len() - 1));
                let head = joined(before.subrange(0, before.len() - 1), seq![sep]) + seq![sep];
                assert(init == head + last);
                assert(joined(all, seq![sep]) == head + last.push(c));
            }
        }
    }
}

/// The parts of `s` between the separators.
pub fn split_on(s: &Vec<char>, sep: char) -> (parts: Vec<Vec<char>>)
    ensures
        pieces(parts@) == split(s@, sep),
        parts@.len() >= 1,
{
    let mut parts: Vec<Vec<char>> = Vec::new();
    let mut current: Vec<char> = Vec::new();
    let mut i: usize = 0;
    assert(s@.subrange(0, 0) == Seq::<char>::empty());
    assert(pieces(parts@).push(current@) == seq![Seq::<char>::empty()]);
    while i < s.len()
        invariant
            i <= s@.len(),
            pieces(parts@).push(current@) == split(s@.subrange(0, i as int), sep),
        decreases s@.len() - i,
    {
        let c = s[i];
        let ghost done = s@.subrange(0, i as int);
        let ghost next = s@.subrange(0, i + 1);
        let ghost old_parts = parts@;
        let ghost old_current = current@;
        assert(next.subrange(0, next.len() - 1) == done);
        if c == sep {
            parts.push(current);
            current = Vec::new();
            assert(pieces(parts@) == pieces(old_parts).push(old_current));
        } else {
            current.push(c);
            let ghost before = split(done, sep);
            assert(pieces(parts@).push(current@) == before.update(
                before.len() - 1,
                before[before.len() - 1].push(c),
            ));
        }
        i = i + 1;
    }
    let ghost old_parts = parts@;
    let ghost old_current = current@;
    parts.push(current);
    assert(pieces(parts@) == pieces(old_parts).push(old_current));
    assert(s@.subrange(0, s@.len() as int) == s@);
    parts
}

/// A line without the carriage return that stands before its line feed.
pub open spec fn without_cr(line: Seq<char>) -> Seq<char> {
    if line.len() > 0 && line[line.len() - 1] == '\r' {
        line.subrange(0, line.len() - 1)
    } else {
        line
    }
}

/// The lines of `s`: each ends at a line feed, the last one may do without. A carriage return just
/// before a line feed belongs to the line ending.
pub open spec fn lines(s: Seq<char>) -> Seq<Seq<char>> {
    let parts = split(s, '\n');
    let ended = Seq::new((parts.len() - 1) as nat, |i: int| without_cr(parts[i]));
    let last = parts[parts.len() - 1];
    if last.len() > 0 {
        ended.push(last)
    } else {
        ended
    }
}

/// The lines of `s`.
pub fn lines_of(s: &Vec<char>) -> (list: Vec<Vec<char>>)
    ensures
        pieces(list@) == lines(s@),
{
    let parts = split_on(s, '\n');
    let ghost spec_parts = split(s@, '\n');
    let count: usize = parts.len() - 1;
    let mut list: Vec<Vec<char>> = Vec::new();
    let mut i: usize = 0;
    while i < count
        invariant
            i <= count == parts@.len() - 1,
            pieces(parts@) == spec_parts,
            pieces(list@) == Seq::new(i as nat, |k: int| without_cr(spec_parts[k])),
        decreases count - i,
    {
        let part = &parts[i];
        assert(part@ == spec_parts[i as int]);
        let ghost old_list = list@;
        let line = if part.len() > 0 && part[part.len() - 1] == '\r' {
            copy_range(part, 0, part.len() - 1)
        } else {
            copy_range(part, 0, part.len())
        };
        assert(line@ == without_cr(part@));
        list.push(line);
        assert(pieces(list@) == pieces(old_list).push(without_cr(part@)));
        assert(Seq::new((i + 1) as nat, |k: int| without_cr(spec_parts[k])) == Seq::new(
            i as nat,
            |k: int| without_cr(spec_parts[k]),
        ).push(without_cr(part@)));
        i = i + 1;
    }
    let last = &parts[count];
    assert(last@ == spec_parts[spec_parts.len() - 1]);
    if last.len() > 0 {
        let ghost old_list = list@;
        let line = copy_range(last, 0, last.len());
        assert(line@ == last@);
        list.push(line);
        assert(pieces(list@) == pieces(old_list).push(last@));
    }
    list
}

// ---------------------------------------------------------------------------
// Words
// ---------------------------------------------------------------------------

/// The characters that `s` begins with, up to white space.
pub open spec fn leading_word(s: Seq<char>) -> Seq<char>
    decreases s.len(),
{
    if s.len() == 0 || white(s[0]) {
        seq![]
    } else {
        seq![s[0]] + leading_word(s.subrange(1, s.len() as int))
    }
}

/// The second of the words of `s`, which white space parts; it is empty where there are fewer.
pub open spec fn second_word(s: Seq<char>) -> Seq<char> {
    let text = trim_start(s);
    let first = leading_word(text);
    leading_word(trim_start(text.subrange(first.len() as int, text.len() as int)))
}

proof fn leading_word_fits(s: Seq<char>)
    ensures
        leading_word(s).len() <= s.len(),
    decreases s.len(),
{
    if s.len() > 0 && !white(s[0]) {
        leading_word_fits(s.subrange(1, s.len() as int));
    }
}

fn skip_white(s: &Vec<char>, from: usize) -> (at: usize)
    requires
        from <= s@.len(),
    ensures
        from <= at <= s@.len(),
        s@.subrange(at as int, s@.len() as int) == trim_start(
            s@.subrange(from as int, s@.len() as int),
        ),
{
    let mut i: usize = from;
    while i < s.len() && is_white(s[i])
        invariant
            from <= i <= s@.len(),
            trim_start(s@.subrange(i as int, s@.len() as int)) == trim_start(
                s@.subrange(from as int, s@.len() as int),
            ),
        decreases s@.len() - i,
    {
        let ghost rest = s@.subrange(i as int, s@.len() as int);
        assert(rest.subrange(1, rest.len() as int) == s@.subrange(i + 1, s@.len() as int));
        i = i + 1;
    }
    i
}

fn skip_word(s: &Vec<char>, from: usize) -> (at: usize)
    requires
        from <= s@.len(),
    ensures
        from <= at <= s@.len(),
        s@.subrange(from as int, at as int) == leading_word(
            s@.subrange(from as int, s@.len() as int),
        ),
{
    let ghost all = leading_word(s@.subrange(from as int, s@.len() as int));
    let mut i: usize = from;
    assert(s@.subrange(from as int, from as int) + all == all);
    while i < s.len() && !is_white(s[i])
        invariant
            from <= i <= s@.len(),
            all == leading_word(s@.subrange(from as int, s@.len() as int)),
            s@.subrange(from as int, i as int) + leading_word(
                s@.subrange(i as int, s@.len() as int),
            ) == all,
        decreases s@.len() - i,
    {
        let ghost rest = s@.subrange(i as int, s@.len() as int);
        assert(rest.subrange(1, rest.len() as int) == s@.subrange(i + 1, s@.len() as int));
        assert(s@.subrange(from as int, i + 1) == s@.subrange(from as int, i as int) + seq![rest[0]]);
        i = i + 1;
    }
    assert(leading_word(s@.subrange(i as int, s@.len() as int)) == Seq::<char>::empty());
    i
}

/// The second of the words of `s`; it is empty where there are fewer.
pub fn second_word_of(s: &Vec<char>) -> (word: Vec<char>)
    ensures
        word@ == second_word(s@),
{
    assert(s@.subrange(0, s@.len() as int) == s@);
    let start: usize = skip_white(s, 0);
    let end: usize = skip_word(s, start);
    let ghost text = trim_start(s@);
    proof {
        leading_word_fits(text);
        assert(text.subrange(leading_word(text).len() as int, text.len() as int) == s@.subrange(
            end as int,
            s@.len() as int,
        ));
    }
    let next: usize = skip_white(s, end);
    let last: usize = skip_word(s, next);
    copy_range(s, next, last)
}

// ---------------------------------------------------------------------------
// Ends and defaults
// ---------------------------------------------------------------------------

/// The last `n` characters of `s`, or all of them where there are fewer.
pub open spec fn last_chars(s: Seq<char>, n: int) -> Seq<char> {
    if s.len() <= n {
        s
    } else {
        s.subrange(s.len() - n, s.len() as int)
    }
}

/// The last `n` characters of `s`, or all of them where there are fewer.
pub fn tail_of(s: &str, n: usize) -> (tail: String)
    ensures
        tail@ == last_chars(s@, n as int),
{
    let chars = chars_of(s);
    if chars.len() <= n {
        string_of(&chars)
    } else {
        string_of(&copy_range(&chars, chars.len() - n, chars.len()))
    }
}

/// The text that is there, else `fallback`.
pub open spec fn text_or(text: Option<Seq<char>>, fallback: Seq<char>) -> Seq<char> {
    match text {
        Some(found) => found,
        None => fallback,
    }
}

/// The text that is there, else `fallback`.
pub fn or_text(text: Option<String>, fallback: &str) -> (found: String)
    ensures
        found@ == text_or(text.deep_view(), fallback@),
{
    match text {
        Some(found) => found,
        None => fallback.to_string(),
    }
}

/// Whether two optional texts are the same.
pub fn same_option(a: Option<&str>, b: Option<&str>) -> (same: bool)
    ensures
        same == (a.deep_view() == b.deep_view()),
{
    match (a, b) {
        (Some(x), Some(y)) => str_eq(x, y),
        (None, None) => true,
        _ => false,
    }
}

/// An optional text, borrowed.
pub fn borrowed(text: &Option<String>) -> (view: Option<&str>)
    ensures
        view.deep_view() == text.deep_view(),
{
    match text {
        Some(found) => Some(found.as_str()),
        None => None,
    }
}

/// The texts of `list`, with `sep` between them.
pub fn join(list: &Vec<String>, sep: &str) -> (text: String)
    ensures
        text@ == joined(list.deep_view(), sep@),
{
    let mut text = String::new();
    let ghost all = list.deep_view();
    let mut i: usize = 0;
    while i < list.len()
        invariant
            i <= list@.len(),
            all == list.deep_view(),
            text@ == joined(all.subrange(0, i as int), sep@),
        decreases list@.len() - i,
    {
        assert(all.subrange(0, i + 1).drop_last() == all.subrange(0, i as int));
        assert(all.subrange(0, i + 1).last() == list@[i as int]@);
        if i > 0 {
            text.append(sep);
        }
        text.append(list[i].as_str());
        i = i + 1;
    }
    assert(all.subrange(0, all.len() as int) == all);
    text
}

/// The piece with this number, or `fallback` where there are fewer.
pub open spec fn piece_or(list: Seq<Seq<char>>, k: int, fallback: Seq<char>) -> Seq<char> {
    if k < list.len() {
        list[k]
    } else {
        fallback
    }
}

/// The piece with this number, or `fallback` where there are fewer.
pub fn piece(parts: &Vec<Vec<char>>, k: usize, fallback: &str) -> (text: Vec<char>)
    ensures
        text@ == piece_or(pieces(parts@), k as int, fallback@),
{
    if k < parts.len() {
        copy_range(&parts[k], 0, parts[k].len())
    } else {
        chars_of(fallback)
    }
}

/// `s` without any `c` at its start.
pub open spec fn without_leading(s: Seq<char>, c: char) -> Seq<char>
    decreases s.len(),
{
    if s.len() > 0 && s[0] == c {
        without_leading(s.subrange(1, s.len() as int), c)
    } else {
        s
    }
}

/// `s` without any `c` at its end.
pub open spec fn without_trailing(s: Seq<char>, c: char) -> Seq<char>
    decreases s.len(),
{
    if s.len() > 0 && s[s.len() - 1] == c {
        without_trailing(s.subrange(0, s.len() - 1), c)
    } else {
        s
    }
}

/// `s` without any `c` at its start.
pub fn strip_leading(s: &Vec<char>, c: char) -> (t: Vec<char>)
    ensures
        t@ == without_leading(s@, c),
{
    let mut i: usize = 0;
    assert(s@.subrange(0, s@.len() as int) == s@);
    while i < s.len() && s[i] == c
        invariant
            i <= s@.len(),
            without_leading(s@, c) == without_leading(
                s@.subrange(i as int, s@.len() as int),
                c,
            ),
        decreases s@.len() - i,
    {
        let ghost rest = s@.subrange(i as int, s@.len() as int);
        assert(rest.subrange(1, rest.len() as int) == s@.subrange(i + 1, s@.len() as int));
        i = i + 1;
    }
    copy_range(s, i, s.len())
}

/// `s` without any `c` at its end.
pub fn strip_trailing(s: &Vec<char>, c: char) -> (t: Vec<char>)
    ensures
        t@ == without_trailing(s@, c),
{
    let mut j: usize = s.len();
    assert(s@.subrange(0, s@.len() as int) == s@);
    while j > 0 && s[j - 1] == c
        invariant
            j <= s@.len(),
            without_trailing(s@, c) == without_trailing(s@.subrange(0, j as int), c),
        decreases j,
    {
        assert(s@.subrange(0, j as int).subrange(0, j - 1) == s@.subrange(0, j - 1));
        j = j - 1;
    }
    copy_range(s, 0, j)
}

/// `s` without any `prefix` at its start, however often it is repeated.
pub open spec fn without_prefixes(s: Seq<char>, prefix: Seq<char>) -> Seq<char>
    decreases s.len(),
{
    if prefix.len() > 0 && has_prefix(s, prefix) {
        without_prefixes(s.subrange(prefix.len() as int, s.len() as int), prefix)
    } else {
        s
    }
}

/// `s` without any `prefix` at its start, however often it is repeated.
pub fn strip_prefixes(s: &Vec<char>, prefix: &str) -> (t: Vec<char>)
    ensures
        t@ == without_prefixes(s@, prefix@),
{
    let needle = chars_of(prefix);
    let mut i: usize = 0;
    assert(s@.subrange(0, s@.len() as int) == s@);
    while needle.len() > 0 && matches_at(s, &needle, i)
        invariant
            needle@ == prefix@,
            i <= s@.len(),
            without_prefixes(s@, prefix@) == without_prefixes(
                s@.subrange(i as int, s@.len() as int),
                prefix@,
            ),
        decreases s@.len() - i,
    {
        let ghost rest = s@.subrange(i as int, s@.len() as int);
        let total: usize = s.len();
        assert(i + needle@.len() <= total);
        assert(rest.subrange(0, needle@.len() as int) == s@.subrange(
            i as int,
            i + needle@.len(),
        ));
        assert(rest.subrange(needle@.len() as int, rest.len() as int) == s@.subrange(
            i + needle@.len(),
            s@.len() as int,
        ));
        i = i + needle.len();
    }
    let ghost rest = s@.subrange(i as int, s@.len() as int);
    proof {
        if prefix@.len() > 0 && has_prefix(rest, prefix@) {
            assert(s@.subrange(i as int, i + prefix@.len()) == rest.subrange(
                0,
                prefix@.len() as int,
            ));
        }
    }
    copy_range(s, i, s.len())
}

/// What stands in front of the first `sep` in `s`, or all of `s`.
pub open spec fn before_first(s: Seq<char>, sep: Seq<char>) -> Seq<char> {
    match next_occurrence(s, sep, 0) {
        Some(at) => s.subrange(0, at),
        None => s,
    }
}

/// What stands in front of the first `sep` in `s`, or all of `s`.
pub fn cut_before(s: &Vec<char>, sep: &str) -> (head: Vec<char>)
    ensures
        head@ == before_first(s@, sep@),
{
    proof {
        next_occurrence_is_first(s@, sep@, 0);
    }
    match find_from(s, &chars_of(sep), 0) {
        Some(at) => copy_range(s, 0, at),
        None => {
            assert(s@.subrange(0, s@.len() as int) == s@);
            copy_range(s, 0, s.len())
        },
    }
}

// ---------------------------------------------------------------------------
// Laws
// ---------------------------------------------------------------------------

/// Whether `c` does not occur in `s`.
pub open spec fn lacks(s: Seq<char>, c: char) -> bool {
    forall|i: int| 0 <= i < s.len() ==> #[trigger] s[i] != c
}

/// A text without separators is one part.
pub proof fn split_of_one_part(s: Seq<char>, sep: char)
    requires
        lacks(s, sep),
    ensures
        split(s, sep) == seq![s],
    decreases s.len(),
{
    if s.len() > 0 {
        let init = s.subrange(0, s.len() - 1);
        assert forall|i: int| 0 <= i < init.len() implies #[trigger] init[i] != sep by {
            assert(init[i] == s[i]);
        }
        split_of_one_part(init, sep);
        assert(s[s.len() - 1] != sep);
        assert(init.push(s[s.len() - 1]) == s);
        assert(split(s, sep) == seq![s]);
    } else {
        assert(s == Seq::<char>::empty());
    }
}

/// A separator parts what stands in front of it from what stands behind it.
pub proof fn split_at_separator(a: Seq<char>, b: Seq<char>, sep: char)
    ensures
        split(a + seq![sep] + b, sep) == split(a, sep) + split(b, sep),
    decreases b.len(),
{
    let all = a + seq![sep] + b;
    split_is_nonempty(b, sep);
    split_is_nonempty(a, sep);
    if b.len() == 0 {
        assert(all.subrange(0, all.len() - 1) == a);
        assert(split(b, sep) == seq![Seq::<char>::empty()]);
        assert(split(a, sep).push(Seq::<char>::empty()) == split(a, sep) + split(b, sep));
    } else {
        let init = b.subrange(0, b.len() - 1);
        split_at_separator(a, init, sep);
        split_is_nonempty(init, sep);
        assert(all.subrange(0, all.len() - 1) == a + seq![sep] + init);
        assert(split(all, sep) == split(a, sep) + split(b, sep));
    }
}

/// Parts that are joined come out again when the text is split.
pub proof fn joined_splits_back(list: Seq<Seq<char>>, sep: char)
    requires
        list.len() > 0,
        forall|i: int| 0 <= i < list.len() ==> lacks(#[trigger] list[i], sep),
    ensures
        split(joined(list, seq![sep]), sep) == list,
    decreases list.len(),
{
    let last = list[list.len() - 1];
    split_of_one_part(last, sep);
    if list.len() == 1 {
        assert(list == seq![last]);
    } else {
        let init = list.subrange(0, list.len() - 1);
        assert forall|i: int| 0 <= i < init.len() implies lacks(#[trigger] init[i], sep) by {
            assert(init[i] == list[i]);
        }
        joined_splits_back(init, sep);
        split_at_separator(joined(init, seq![sep]), last, sep);
        assert(init + seq![last] == list);
    }
}

/// Lines that are written one below the other are read again, whether or not the last is ended.
pub proof fn written_lines_are_read(list: Seq<Seq<char>>)
    requires
        list.len() > 0,
        forall|i: int| 0 <= i < list.len() ==> lacks(#[trigger] list[i], '\n') && lacks(list[i], '\r'),
    ensures
        lines(joined(list, "\n"@).push('\n')) == list,
        list.last().len() > 0 ==> lines(joined(list, "\n"@)) == list,
{
    reveal_strlit("\n");
    assert("\n"@ == seq!['\n']);
    joined_splits_back(list, '\n');
    let text = joined(list, "\n"@);
    let ended = text.push('\n');
    let none = Seq::<char>::empty();
    assert(ended == text + seq!['\n'] + none);
    split_at_separator(text, none, '\n');
    assert(split(ended, '\n') == list.push(none));
    assert forall|i: int| 0 <= i < list.len() implies without_cr(#[trigger] list[i]) == list[i] by {
        let line = list[i];
        if line.len() > 0 {
            assert(line[line.len() - 1] != '\r');
        }
    }
    assert(lines(ended) == list);
    if list.last().len() > 0 {
        assert(lines(text) == list);
    }
}

/// A text is its trimmed text with white space around it, and the trimmed text neither begins nor
/// ends with white space.
pub proof fn trimmed_is_the_middle(s: Seq<char>)
    ensures
        exists|i: int, j: int|
            0 <= i <= j <= s.len() && trimmed(s) == #[trigger] s.subrange(i, j) && (forall|k: int|
                0 <= k < i || j <= k < s.len() ==> white(#[trigger] s[k])),
        trimmed(s).len() > 0 ==> !white(trimmed(s)[0]) && !white(trimmed(s).last()),
{
    let i = trim_start_takes_white(s);
    let t = trim_start(s);
    let j = trim_end_takes_white(t);
    assert(trimmed(s) == s.subrange(i, i + j));
    assert forall|k: int| 0 <= k < i || i + j <= k < s.len() implies white(#[trigger] s[k]) by {
        if k >= i {
            assert(t[k - i] == s[k]);
        }
    }
}

proof fn trim_start_takes_white(s: Seq<char>) -> (i: int)
    ensures
        0 <= i <= s.len(),
        trim_start(s) == s.subrange(i, s.len() as int),
        forall|k: int| 0 <= k < i ==> white(#[trigger] s[k]),
        i < s.len() ==> !white(s[i]),
    decreases s.len(),
{
    if s.len() > 0 && white(s[0]) {
        let rest = s.subrange(1, s.len() as int);
        let i = trim_start_takes_white(rest);
        assert forall|k: int| 0 <= k < i + 1 implies white(#[trigger] s[k]) by {
            if k > 0 {
                assert(rest[k - 1] == s[k]);
            }
        }
        assert(rest.subrange(i, rest.len() as int) == s.subrange(i + 1, s.len() as int));
        if i < rest.len() {
            assert(rest[i] == s[i + 1]);
        }
        i + 1
    } else {
        assert(s.subrange(0, s.len() as int) == s);
        0
    }
}

proof fn trim_end_takes_white(s: Seq<char>) -> (j: int)
    ensures
        0 <= j <= s.len(),
        trim_end(s) == s.subrange(0, j),
        forall|k: int| j <= k < s.len() ==> white(#[trigger] s[k]),
        j > 0 ==> !white(s[j - 1]),
    decreases s.len(),
{
    if s.len() > 0 && white(s[s.len() - 1]) {
        let init = s.subrange(0, s.len() - 1);
        let j = trim_end_takes_white(init);
        assert forall|k: int| j <= k < s.len() implies white(#[trigger] s[k]) by {
            if k < init.len() {
                assert(init[k] == s[k]);
            }
        }
        assert(init.subrange(0, j) == s.subrange(0, j));
        if j > 0 {
            assert(init[j - 1] == s[j - 1]);
        }
        j
    } else {
        assert(s.subrange(0, s.len() as int) == s);
        s.len() as int
    }
}

/// A text that neither begins nor ends with white space is what trimming leaves.
pub proof fn trimmed_stays(s: Seq<char>)
    requires
        s.len() > 0 ==> !white(s[0]) && !white(s.last()),
    ensures
        trimmed(s) == s,
{
}

/// The last characters of a text are its end, as many as are asked for or as there are.
pub proof fn last_chars_are_the_end(a: Seq<char>, b: Seq<char>)
    ensures
        last_chars(a + b, b.len() as int) == b,
        last_chars(b, (a.len() + b.len()) as int) == b,
{
    assert((a + b).subrange(a.len() as int, (a + b).len() as int) == b);
}

/// Taking a prefix away and putting it back changes nothing, and only a text that begins with the
/// prefix loses it.
pub proof fn after_prefix_is_the_rest(s: Seq<char>, prefix: Seq<char>, rest: Seq<char>)
    ensures
        after_prefix(prefix + rest, prefix) == Some(rest),
        after_prefix(s, prefix) matches Some(found) ==> s == prefix + found,
        after_prefix(s, prefix) is None ==> forall|t: Seq<char>| s != #[trigger] (prefix + t),
{
    let whole = prefix + rest;
    assert(whole.subrange(0, prefix.len() as int) == prefix);
    assert(whole.subrange(prefix.len() as int, whole.len() as int) == rest);
    if let Some(found) = after_prefix(s, prefix) {
        assert(s == prefix + found);
    } else {
        assert forall|t: Seq<char>| s != #[trigger] (prefix + t) by {
            if s == prefix + t {
                assert(s.subrange(0, prefix.len() as int) == prefix);
            }
        }
    }
}

/// Characters in front of a text that are none of those stripped stay, those that are go.
pub proof fn stripping_takes_all(s: Seq<char>, c: char)
    ensures
        without_leading(seq![c] + s, c) == without_leading(s, c),
        without_trailing(s.push(c), c) == without_trailing(s, c),
        s.len() > 0 && s[0] != c ==> without_leading(s, c) == s,
        s.len() > 0 && s.last() != c ==> without_trailing(s, c) == s,
{
    let front = seq![c] + s;
    assert(front.subrange(1, front.len() as int) == s);
    assert(s.push(c).subrange(0, s.push(c).len() - 1) == s);
}

/// What stands in front of the first separator is found, whatever follows it.
pub proof fn before_first_is_in_front(s: Seq<char>, sep: Seq<char>, rest: Seq<char>)
    requires
        forall|i: int| 0 <= i < s.len() ==> !#[trigger] occurs_at(s + sep + rest, sep, i),
    ensures
        before_first(s + sep + rest, sep) == s,
{
    let all = s + sep + rest;
    assert(all.subrange(s.len() as int, (s.len() + sep.len()) as int) == sep);
    next_occurrence_is_first(all, sep, 0);
    let at = next_occurrence(all, sep, 0);
    assert(occurs_at(all, sep, s.len() as int));
    assert(at == Some(s.len() as int));
    assert(all.subrange(0, s.len() as int) == s);
}

/// A text without a separator is in front of it as a whole.
pub proof fn before_first_of_all(s: Seq<char>, sep: Seq<char>)
    requires
        forall|i: int| 0 <= i ==> !#[trigger] occurs_at(s, sep, i),
    ensures
        before_first(s, sep) == s,
{
    next_occurrence_is_first(s, sep, 0);
}

/// Prefixes are taken away one after the other, until the text begins otherwise.
pub proof fn without_prefixes_takes_one(s: Seq<char>, prefix: Seq<char>)
    requires
        prefix.len() > 0,
    ensures
        without_prefixes(prefix + s, prefix) == without_prefixes(s, prefix),
        !has_prefix(s, prefix) ==> without_prefixes(s, prefix) == s,
{
    let all = prefix + s;
    assert(all.subrange(0, prefix.len() as int) == prefix);
    assert(all.subrange(prefix.len() as int, all.len() as int) == s);
}

/// The second word of a text is found behind any white space, and ends in front of the next.
#[verifier::rlimit(40)]
pub proof fn second_word_is_the_second(
    first: Seq<char>,
    gap: Seq<char>,
    second: Seq<char>,
    rest: Seq<char>,
)
    requires
        first.len() > 0,
        gap.len() > 0,
        forall|i: int| 0 <= i < first.len() ==> !white(#[trigger] first[i]),
        forall|i: int| 0 <= i < gap.len() ==> white(#[trigger] gap[i]),
        forall|i: int| 0 <= i < second.len() ==> !white(#[trigger] second[i]),
        rest.len() > 0 ==> white(rest[0]),
        second.len() == 0 ==> rest.len() == 0,
    ensures
        second_word(first + (gap + (second + rest))) == second,
{
    let tail = second + rest;
    let behind = gap + tail;
    let all = first + behind;
    assert(all[0] == first[0]);
    leading_word_of(first, behind);
    assert(all.subrange(first.len() as int, all.len() as int) == behind);
    white_is_skipped(gap, tail);
    if second.len() > 0 {
        assert(tail[0] == second[0]);
    }
    leading_word_of(second, rest);
}

proof fn leading_word_of(word: Seq<char>, rest: Seq<char>)
    requires
        forall|i: int| 0 <= i < word.len() ==> !white(#[trigger] word[i]),
        rest.len() > 0 ==> white(rest[0]),
    ensures
        leading_word(word + rest) == word,
    decreases word.len(),
{
    let all = word + rest;
    if word.len() == 0 {
        assert(all == rest);
    } else {
        let tail = word.subrange(1, word.len() as int);
        assert(all[0] == word[0]);
        assert(all.subrange(1, all.len() as int) == tail + rest);
        leading_word_of(tail, rest);
        assert(seq![word[0]] + tail == word);
    }
}

proof fn white_is_skipped(gap: Seq<char>, rest: Seq<char>)
    requires
        forall|i: int| 0 <= i < gap.len() ==> white(#[trigger] gap[i]),
        rest.len() > 0 ==> !white(rest[0]),
    ensures
        trim_start(gap + rest) == rest,
    decreases gap.len(),
{
    let all = gap + rest;
    if gap.len() == 0 {
        assert(all == rest);
    } else {
        let tail = gap.subrange(1, gap.len() as int);
        assert(all[0] == gap[0]);
        assert(all.subrange(1, all.len() as int) == tail + rest);
        white_is_skipped(tail, rest);
    }
}

/// White space is what Unicode calls so: five control characters and the space, the next line, and the
/// spaces and separators beyond ASCII.
pub proof fn white_space_is_unicode_s(c: char)
    ensures
        white(c) == (c == '\t' || c == '\n' || c == '\u{b}' || c == '\u{c}' || c == '\r' || c == ' '
            || c == '\u{85}' || c == '\u{a0}' || c == '\u{1680}' || '\u{2000}' <= c <= '\u{200a}' || c
            == '\u{2028}' || c == '\u{2029}' || c == '\u{202f}' || c == '\u{205f}' || c == '\u{3000}'),
{
}

/// The lines of two texts, of which the first ends a line, are the lines of the one and then those of
/// the other.
#[verifier::rlimit(40)]
pub proof fn lines_follow_each_other(a: Seq<char>, b: Seq<char>)
    ensures
        lines(a + seq!['\n'] + b) == lines(a.push('\n')) + lines(b),
        lines(seq![]) == Seq::<Seq<char>>::empty(),
{
    let none = Seq::<char>::empty();
    split_at_separator(a, b, '\n');
    split_at_separator(a, none, '\n');
    split_is_nonempty(a, '\n');
    split_is_nonempty(b, '\n');
    assert(a.push('\n') == a + seq!['\n'] + none);
    assert(split(none, '\n') == seq![none]);
    let left = split(a, '\n');
    let right = split(b, '\n');
    let one = split(a.push('\n'), '\n');
    let all = split(a + seq!['\n'] + b, '\n');
    assert(one == left.push(none));
    assert(all == left + right);
    assert(lines(a.push('\n')) == Seq::new(left.len(), |i: int| without_cr(left[i])));
    assert(lines(a + seq!['\n'] + b) == lines(a.push('\n')) + lines(b));
    assert(lines(none) == Seq::<Seq<char>>::empty());
}

/// One carriage return in front of the line feed belongs to the end of the line; any other stays.
#[verifier::rlimit(40)]
pub proof fn line_ends_are_taken_off(line: Seq<char>)
    requires
        lacks(line, '\n'),
    ensures
        lines(line + seq!['\r', '\n']) == seq![line],
        line.len() == 0 || line.last() != '\r' ==> lines(line + seq!['\n']) == seq![line],
        line.len() > 0 ==> lines(line) == seq![line],
{
    let none = Seq::<char>::empty();
    let returned = line.push('\r');
    assert forall|i: int| 0 <= i < returned.len() implies #[trigger] returned[i] != '\n' by {
        if i < line.len() {
            assert(returned[i] == line[i]);
        }
    }
    split_of_one_part(line, '\n');
    split_of_one_part(returned, '\n');
    split_at_separator(returned, none, '\n');
    split_at_separator(line, none, '\n');
    assert(split(none, '\n') == seq![none]);
    assert(line + seq!['\r', '\n'] == returned + seq!['\n'] + none);
    assert(line + seq!['\n'] == line + seq!['\n'] + none);
    assert(split(line + seq!['\r', '\n'], '\n') == seq![returned, none]);
    assert(split(line + seq!['\n'], '\n') == seq![line, none]);
    assert(without_cr(returned) == line);
    assert(lines(line + seq!['\r', '\n']) == seq![line]);
    if line.len() == 0 || line.last() != '\r' {
        assert(without_cr(line) == line);
        assert(lines(line + seq!['\n']) == seq![line]);
    }
    if line.len() > 0 {
        assert(lines(line) == seq![line]);
    }
}

/// The texts of a list stand one behind the other, with the separator between each two.
pub proof fn joined_puts_separators_between(list: Seq<Seq<char>>, text: Seq<char>, sep: Seq<char>)
    ensures
        joined(seq![], sep) == Seq::<char>::empty(),
        joined(seq![text], sep) == text,
        list.len() > 0 ==> joined(list.push(text), sep) == joined(list, sep) + sep + text,
{
    let more = list.push(text);
    assert(more.subrange(0, more.len() - 1) == list);
}

/// The first place of a character is found: it stands there, and nowhere in front.
pub proof fn position_is_the_first(s: Seq<char>, c: char)
    ensures
        0 <= position(s, c) <= s.len(),
        position(s, c) < s.len() ==> s[position(s, c)] == c,
        forall|i: int| 0 <= i < position(s, c) ==> #[trigger] s[i] != c,
    decreases s.len(),
{
    if s.len() > 0 && s[0] != c {
        let rest = s.subrange(1, s.len() as int);
        position_is_the_first(rest, c);
        assert forall|i: int| 0 <= i < position(s, c) implies #[trigger] s[i] != c by {
            if i > 0 {
                assert(s[i] == rest[i - 1]);
            }
        }
    }
}

/// White space in front of a text does not change its second word, and a single word has none.
pub proof fn second_word_needs_a_first(lead: Seq<char>, s: Seq<char>, word: Seq<char>)
    requires
        forall|i: int| 0 <= i < lead.len() ==> white(#[trigger] lead[i]),
        forall|i: int| 0 <= i < word.len() ==> !white(#[trigger] word[i]),
    ensures
        second_word(lead + s) == second_word(s),
        second_word(word) == Seq::<char>::empty(),
    decreases lead.len(),
{
    let none = Seq::<char>::empty();
    leading_word_of(word, none);
    assert(word + none == word);
    if word.len() > 0 {
        assert(!white(word[0]));
    }
    assert(trim_start(word) == word);
    assert(word.subrange(word.len() as int, word.len() as int) == none);
    if lead.len() == 0 {
        assert(lead + s == s);
    } else {
        let rest = lead.subrange(1, lead.len() as int);
        let all = lead + s;
        assert(all[0] == lead[0]);
        assert(all.subrange(1, all.len() as int) == rest + s);
        assert forall|i: int| 0 <= i < rest.len() implies white(#[trigger] rest[i]) by {
            assert(rest[i] == lead[i + 1]);
        }
        second_word_needs_a_first(rest, s, word);
    }
}

/// A text ends with a suffix exactly where it is something with the suffix behind it.
pub proof fn suffix_is_the_end(s: Seq<char>, suffix: Seq<char>, head: Seq<char>)
    ensures
        has_suffix(head + suffix, suffix),
        has_suffix(s, suffix) ==> s == s.subrange(0, s.len() - suffix.len()) + suffix,
{
    let all = head + suffix;
    assert(all.subrange(head.len() as int, all.len() as int) == suffix);
    if has_suffix(s, suffix) {
        assert(s == s.subrange(0, s.len() - suffix.len()) + suffix);
    }
}

} // verus!
