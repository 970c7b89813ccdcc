//! Searching the workspace: hits in paths, and matches in the contents of files.
use crate::bytes::{byte_offset, byte_offset_grows, byte_offset_of, encode_concat};
use crate::outside::{alphanumeric, lowercase, text_from_utf8_lossy, utf8_lossy};
use crate::text::{chars_of, contains, copy_range, find_from, next_occurrence_is_first, occurs, occurs_at, piece, piece_or, pieces, split, split_on, string_of};
use vstd::prelude::*;
use vstd::utf8::encode_utf8;

verus! {

/// How many files are searched through.
pub const SEARCH_MAX_FILES: usize = 2000;

/// How many matches are kept.
pub const SEARCH_MAX_MATCHES: usize = 1000;

/// How many matches are kept of one file.
pub const SEARCH_MAX_PER_FILE: usize = 50;

/// How many hits in paths are kept.
pub const SEARCH_MAX_PATHS: usize = 300;

/// How many bytes of a file are looked at to tell whether it is binary.
pub const SNIFF_BYTES: usize = 8192;

/// How many characters a preview has at most.
pub const PREVIEW_CHARS: usize = 200;

/// A match in the contents of a file.
#[derive(Debug)]
pub struct SearchMatch {
    pub file: String,
    pub line: usize,
    pub col: usize,
    pub preview: String,
}

/// The mathematical value of a [`SearchMatch`].
pub struct SearchMatchView {
    pub file: Seq<char>,
    pub line: int,
    pub col: int,
    pub preview: Seq<char>,
}

impl DeepView for SearchMatch {
    type V = SearchMatchView;

    open spec fn deep_view(&self) -> SearchMatchView {
        SearchMatchView {
            file: self.file@,
            line: self.line as int,
            col: self.col as int,
            preview: self.preview@,
        }
    }
}

/// A hit in a path.
#[derive(Debug)]
pub struct PathHit {
    pub path: String,
    /// "file" or "dir".
    pub kind: String,
}

/// The mathematical value of a [`PathHit`].
pub struct PathHitView {
    pub path: Seq<char>,
    pub kind: Seq<char>,
}

impl DeepView for PathHit {
    type V = PathHitView;

    open spec fn deep_view(&self) -> PathHitView {
        PathHitView { path: self.path@, kind: self.kind@ }
    }
}

/// What a search found.
#[derive(Debug)]
pub struct SearchOutcome {
    pub matches: Vec<SearchMatch>,
    pub paths: Vec<PathHit>,
    /// Whether there may be more than was kept.
    pub truncated: bool,
}

/// The mathematical value of a [`SearchOutcome`].
pub struct SearchOutcomeView {
    pub matches: Seq<SearchMatchView>,
    pub paths: Seq<PathHitView>,
    pub truncated: bool,
}

impl DeepView for SearchOutcome {
    type V = SearchOutcomeView;

    open spec fn deep_view(&self) -> SearchOutcomeView {
        SearchOutcomeView {
            matches: self.matches.deep_view(),
            paths: self.paths.deep_view(),
            truncated: self.truncated,
        }
    }
}

// ---------------------------------------------------------------------------
// Words and hits
// ---------------------------------------------------------------------------

/// Whether a character is part of a word.
pub open spec fn word_char(c: char) -> bool {
    alphanumeric(c) || c == '_'
}

/// Whether a character is part of a word.
pub fn is_word_char(c: char) -> (b: bool)
    ensures
        b == word_char(c),
{
    c.is_alphanumeric() || c == '_'
}

/// For each character of a text, whether it is part of a word.
pub open spec fn words_of(hay: Seq<char>) -> Seq<bool> {
    Seq::new(hay.len(), |i: int| word_char(hay[i]))
}

/// For each character of a text, whether it is part of a word.
pub fn word_flags(hay: &Vec<char>) -> (words: Vec<bool>)
    ensures
        words@ == words_of(hay@),
{
    let mut words: Vec<bool> = Vec::new();
    let mut i: usize = 0;
    while i < hay.len()
        invariant
            i <= hay@.len(),
            words@ == words_of(hay@.subrange(0, i as int)),
        decreases hay@.len() - i,
    {
        words.push(is_word_char(hay[i]));
        i = i + 1;
        assert(words@ == words_of(hay@.subrange(0, i as int)));
    }
    assert(hay@.subrange(0, hay@.len() as int) == hay@);
    words
}

/// Whether no word goes on across either end of `len` characters at `at`, where `words` tells
/// which characters are part of a word.
pub open spec fn stands_alone(words: Seq<bool>, at: int, len: int) -> bool {
    &&& at == 0 || !words[at - 1]
    &&& at + len >= words.len() || !words[at + len]
}

/// Whether `needle` is hit at `at`: it stands there, and where whole words are sought, alone.
pub open spec fn hit_at(
    hay: Seq<char>,
    needle: Seq<char>,
    words: Seq<bool>,
    whole_word: bool,
    at: int,
) -> bool {
    occurs_at(hay, needle, at) && (whole_word ==> stands_alone(words, at, needle.len() as int))
}

/// Whether `needle` is hit anywhere.
pub open spec fn hit_anywhere(
    hay: Seq<char>,
    needle: Seq<char>,
    words: Seq<bool>,
    whole_word: bool,
) -> bool {
    exists|at: int| #[trigger] hit_at(hay, needle, words, whole_word, at)
}

/// The first hit at or after `from`.
pub open spec fn next_hit(
    hay: Seq<char>,
    needle: Seq<char>,
    words: Seq<bool>,
    whole_word: bool,
    from: int,
) -> Option<int>
    decreases hay.len() + 1 - from,
{
    if from > hay.len() {
        None
    } else if hit_at(hay, needle, words, whole_word, from) {
        Some(from)
    } else {
        next_hit(hay, needle, words, whole_word, from + 1)
    }
}

/// The hits from `from` on, none within another, `budget` of them at most.
pub open spec fn hits(
    hay: Seq<char>,
    needle: Seq<char>,
    words: Seq<bool>,
    whole_word: bool,
    from: int,
    budget: nat,
) -> Seq<int>
    decreases budget,
{
    if budget == 0 {
        seq![]
    } else {
        match next_hit(hay, needle, words, whole_word, from) {
            Some(at) => seq![at] + hits(
                hay,
                needle,
                words,
                whole_word,
                at + needle.len(),
                (budget - 1) as nat,
            ),
            None => seq![],
        }
    }
}

/// `next_hit` is what its name says.
pub proof fn next_hit_is_first(
    hay: Seq<char>,
    needle: Seq<char>,
    words: Seq<bool>,
    whole_word: bool,
    from: int,
)
    requires
        0 <= from,
    ensures
        match next_hit(hay, needle, words, whole_word, from) {
            Some(at) => from <= at <= hay.len() && hit_at(hay, needle, words, whole_word, at)
                && forall|k: int|
                from <= k < at ==> !#[trigger] hit_at(hay, needle, words, whole_word, k),
            None => forall|k: int|
                from <= k ==> !#[trigger] hit_at(hay, needle, words, whole_word, k),
        },
    decreases hay.len() + 1 - from,
{
    if from <= hay.len() && !hit_at(hay, needle, words, whole_word, from) {
        next_hit_is_first(hay, needle, words, whole_word, from + 1);
    }
}

/// Where there is no hit up to `to`, the search may go on from there.
proof fn next_hit_skips(
    hay: Seq<char>,
    needle: Seq<char>,
    words: Seq<bool>,
    whole_word: bool,
    from: int,
    to: int,
)
    requires
        0 <= from <= to,
        forall|k: int| from <= k < to ==> !#[trigger] hit_at(hay, needle, words, whole_word, k),
    ensures
        next_hit(hay, needle, words, whole_word, from) == next_hit(
            hay,
            needle,
            words,
            whole_word,
            to,
        ),
    decreases to - from,
{
    if from < to {
        assert(!hit_at(hay, needle, words, whole_word, from));
        if from <= hay.len() {
            next_hit_skips(hay, needle, words, whole_word, from + 1, to);
        }
    }
}

fn alone(words: &Vec<bool>, at: usize, len: usize) -> (b: bool)
    requires
        at + len <= words@.len(),
    ensures
        b == stands_alone(words@, at as int, len as int),
{
    let end: usize = words.len();
    (at == 0 || !words[at - 1]) && (len >= end - at || !words[at + len])
}

/// The first hit at or after `from`. `words` tells which characters are part of a word; it is
/// looked at only where whole words are sought.
pub fn find_hit(
    hay: &Vec<char>,
    needle: &Vec<char>,
    words: &Vec<bool>,
    whole_word: bool,
    from: usize,
) -> (at: Option<usize>)
    requires
        whole_word ==> words@.len() == hay@.len(),
        from <= hay@.len(),
    ensures
        next_hit(hay@, needle@, words@, whole_word, from as int) == (match at {
            Some(p) => Some(p as int),
            None => None,
        }),
{
    let mut at: usize = from;
    loop
        invariant
            whole_word ==> words@.len() == hay@.len(),
            from <= at <= hay@.len(),
            next_hit(hay@, needle@, words@, whole_word, from as int) == next_hit(
                hay@,
                needle@,
                words@,
                whole_word,
                at as int,
            ),
        decreases hay@.len() - at,
    {
        proof {
            next_occurrence_is_first(hay@, needle@, at as int);
        }
        match find_from(hay, needle, at) {
            None => {
                proof {
                    assert forall|k: int| at <= k < hay@.len() + 1 implies !#[trigger] hit_at(
                        hay@,
                        needle@,
                        words@,
                        whole_word,
                        k,
                    ) by {
                        assert(!occurs_at(hay@, needle@, k));
                    }
                    next_hit_skips(
                        hay@,
                        needle@,
                        words@,
                        whole_word,
                        at as int,
                        (hay@.len() + 1) as int,
                    );
                }
                return None;
            },
            Some(p) => {
                proof {
                    assert forall|k: int| at <= k < p implies !#[trigger] hit_at(
                        hay@,
                        needle@,
                        words@,
                        whole_word,
                        k,
                    ) by {
                        assert(!occurs_at(hay@, needle@, k));
                    }
                    next_hit_skips(hay@, needle@, words@, whole_word, at as int, p as int);
                }
                if !whole_word || alone(words, p, needle.len()) {
                    return Some(p);
                }
                if p == hay.len() {
                    assert(next_hit(hay@, needle@, words@, whole_word, p + 1) is None);
                    return None;
                }
                at = p + 1;
            },
        }
    }
}

/// Whether `needle` stands anywhere alone, as a whole word.
pub fn has_word_boundary_match(hay: &Vec<char>, needle: &Vec<char>, words: &Vec<bool>) -> (b: bool)
    requires
        words@.len() == hay@.len(),
    ensures
        b == hit_anywhere(hay@, needle@, words@, true),
{
    proof {
        next_hit_is_first(hay@, needle@, words@, true, 0);
        assert forall|k: int| k < 0 implies !#[trigger] hit_at(hay@, needle@, words@, true, k) by {}
    }
    let found = find_hit(hay, needle, words, true, 0);
    found.is_some()
}

/// Whether a path is hit.
pub fn path_matches(
    hay: &Vec<char>,
    needle: &Vec<char>,
    words: &Vec<bool>,
    whole_word: bool,
) -> (b: bool)
    requires
        whole_word ==> words@.len() == hay@.len(),
    ensures
        b == hit_anywhere(hay@, needle@, words@, whole_word),
{
    if whole_word {
        has_word_boundary_match(hay, needle, words)
    } else {
        proof {
            assert forall|k: int|
                #![trigger occurs_at(hay@, needle@, k)]
                occurs_at(hay@, needle@, k) implies hit_anywhere(
                hay@,
                needle@,
                words@,
                whole_word,
            ) by {
                assert(hit_at(hay@, needle@, words@, whole_word, k));
            }
        }
        contains(hay, needle)
    }
}

// ---------------------------------------------------------------------------
// Lines and previews
// ---------------------------------------------------------------------------

/// How many lines end in `s`.
pub open spec fn newlines(s: Seq<char>) -> int
    decreases s.len(),
{
    if s.len() == 0 {
        0
    } else {
        newlines(s.drop_last()) + (if s.last() == '\n' {
            1int
        } else {
            0int
        })
    }
}

/// Where the line around `at` begins.
pub open spec fn line_start(hay: Seq<char>, at: int) -> int
    decreases at,
{
    if at <= 0 {
        0
    } else if hay[at - 1] == '\n' {
        at
    } else {
        line_start(hay, at - 1)
    }
}

/// Where the line around `at` ends.
pub open spec fn line_end(hay: Seq<char>, at: int) -> int
    decreases hay.len() - at,
{
    if at >= hay.len() {
        hay.len() as int
    } else if hay[at] == '\n' {
        at
    } else {
        line_end(hay, at + 1)
    }
}

/// The first `n` characters of `s`, or all of them where there are fewer.
pub open spec fn first_chars(s: Seq<char>, n: int) -> Seq<char> {
    if s.len() <= n {
        s
    } else {
        s.subrange(0, n)
    }
}

/// The line of a text with this number, counted from 0; it is empty where there are fewer.
pub open spec fn line_of(text: Seq<char>, number: int) -> Seq<char> {
    piece_or(split(text, '\n'), number, Seq::empty())
}

/// The match at `at` of the folded text: its line counts from 1, its column in bytes of the folded
/// text from 0, and the preview is the beginning of that line in the text itself.
pub open spec fn match_at(
    file: Seq<char>,
    text: Seq<char>,
    hay: Seq<char>,
    at: int,
) -> SearchMatchView {
    let number = newlines(hay.subrange(0, at));
    SearchMatchView {
        file,
        line: number + 1,
        col: byte_offset(hay, at) - byte_offset(hay, line_start(hay, at)),
        preview: first_chars(line_of(text, number), PREVIEW_CHARS as int),
    }
}

/// A line lies around each of its places.
pub proof fn line_is_around(hay: Seq<char>, at: int)
    requires
        0 <= at <= hay.len(),
    ensures
        0 <= line_start(hay, at) <= at <= line_end(hay, at) <= hay.len(),
        line_start(hay, at) == 0 || hay[line_start(hay, at) - 1] == '\n',
        line_end(hay, at) == hay.len() || hay[line_end(hay, at)] == '\n',
        forall|k: int| line_start(hay, at) <= k < line_end(hay, at) ==> #[trigger] hay[k] != '\n',
{
    line_starts_before(hay, at);
    line_ends_behind(hay, at);
}

proof fn line_starts_before(hay: Seq<char>, at: int)
    requires
        0 <= at <= hay.len(),
    ensures
        0 <= line_start(hay, at) <= at,
        line_start(hay, at) == 0 || hay[line_start(hay, at) - 1] == '\n',
        forall|k: int| line_start(hay, at) <= k < at ==> #[trigger] hay[k] != '\n',
    decreases at,
{
    if at > 0 && hay[at - 1] != '\n' {
        line_starts_before(hay, at - 1);
    }
}

proof fn line_ends_behind(hay: Seq<char>, at: int)
    requires
        0 <= at <= hay.len(),
    ensures
        at <= line_end(hay, at) <= hay.len(),
        line_end(hay, at) == hay.len() || hay[line_end(hay, at)] == '\n',
        forall|k: int| at <= k < line_end(hay, at) ==> #[trigger] hay[k] != '\n',
    decreases hay.len() - at,
{
    if at < hay.len() && hay[at] != '\n' {
        line_ends_behind(hay, at + 1);
    }
}

fn line_number(hay: &Vec<char>, at: usize) -> (line: usize)
    requires
        at < hay@.len(),
    ensures
        line == newlines(hay@.subrange(0, at as int)) + 1,
        line >= 1,
{
    let total: usize = hay.len();
    let mut line: usize = 1;
    let mut i: usize = 0;
    while i < at
        invariant
            i <= at < total,
            total == hay@.len(),
            1 <= line <= i + 1,
            line == newlines(hay@.subrange(0, i as int)) + 1,
        decreases at - i,
    {
        assert(hay@.subrange(0, i + 1).drop_last() == hay@.subrange(0, i as int));
        if hay[i] == '\n' {
            line = line + 1;
        }
        i = i + 1;
    }
    line
}

fn line_start_of(hay: &Vec<char>, at: usize) -> (start: usize)
    requires
        at <= hay@.len(),
    ensures
        start == line_start(hay@, at as int),
{
    let mut i: usize = at;
    while i > 0 && hay[i - 1] != '\n'
        invariant
            i <= at <= hay@.len(),
            line_start(hay@, i as int) == line_start(hay@, at as int),
        decreases i,
    {
        i = i - 1;
    }
    i
}

fn head_of(chars: &Vec<char>, n: usize) -> (head: String)
    ensures
        head@ == first_chars(chars@, n as int),
{
    if chars.len() <= n {
        string_of(chars)
    } else {
        string_of(&copy_range(chars, 0, n))
    }
}

/// The match at `at` of the folded text, where `lines` are the lines of the text itself.
fn match_in(file: &str, lines: &Vec<Vec<char>>, hay: &Vec<char>, at: usize) -> (found: SearchMatch)
    requires
        at < hay@.len(),
    ensures
        forall|text: Seq<char>|
            pieces(lines@) == #[trigger] split(text, '\n') ==> found.deep_view() == match_at(
                file@,
                text,
                hay@,
                at as int,
            ),
{
    let start: usize = line_start_of(hay, at);
    proof {
        line_is_around(hay@, at as int);
        byte_offset_grows(hay@, start as int, at as int);
        reveal_strlit("");
        assert(""@ == Seq::<char>::empty());
    }
    let from: usize = byte_offset_of(hay, start);
    let here: usize = byte_offset_of(hay, at);
    let line: usize = line_number(hay, at);
    SearchMatch {
        file: file.to_string(),
        line,
        col: here - from,
        preview: head_of(&piece(lines, line - 1, ""), PREVIEW_CHARS),
    }
}

/// The match at `at` of the folded text.
pub fn match_of(file: &str, text: &str, hay: &Vec<char>, at: usize) -> (found: SearchMatch)
    requires
        at < hay@.len(),
    ensures
        found.deep_view() == match_at(file@, text@, hay@, at as int),
{
    let lines = split_on(&chars_of(text), '\n');
    match_in(file, &lines, hay, at)
}

// ---------------------------------------------------------------------------
// One file
// ---------------------------------------------------------------------------

/// The matches at the places `places`.
pub open spec fn matches_at(
    file: Seq<char>,
    text: Seq<char>,
    hay: Seq<char>,
    places: Seq<int>,
) -> Seq<SearchMatchView> {
    Seq::new(places.len(), |i: int| match_at(file, text, hay, places[i]))
}

/// The matches in one file, `budget` of them at most. `text` is what the file holds, `hay` the
/// same folded as the query asks.
pub fn scan_text(
    file: &str,
    text: &str,
    hay: &Vec<char>,
    needle: &Vec<char>,
    words: &Vec<bool>,
    whole_word: bool,
    budget: usize,
) -> (found: Vec<SearchMatch>)
    requires
        needle@.len() > 0,
        whole_word ==> words@.len() == hay@.len(),
    ensures
        found.deep_view() == matches_at(
            file@,
            text@,
            hay@,
            hits(hay@, needle@, words@, whole_word, 0, budget as nat),
        ),
{
    let ghost places = hits(hay@, needle@, words@, whole_word, 0, budget as nat);
    let lines = split_on(&chars_of(text), '\n');
    let mut found: Vec<SearchMatch> = Vec::new();
    let total: usize = hay.len();
    let mut from: usize = 0;
    let ghost mut rest = places;
    while found.len() < budget
        invariant
            needle@.len() > 0,
            whole_word ==> words@.len() == hay@.len(),
            from <= total,
            total == hay@.len(),
            pieces(lines@) == split(text@, '\n'),
            found@.len() <= budget,
            places == hits(hay@, needle@, words@, whole_word, 0, budget as nat),
            found@.len() <= places.len(),
            rest == hits(
                hay@,
                needle@,
                words@,
                whole_word,
                from as int,
                (budget - found@.len()) as nat,
            ),
            rest == places.subrange(found@.len() as int, places.len() as int),
            found.deep_view() == matches_at(
                file@,
                text@,
                hay@,
                places.subrange(0, found@.len() as int),
            ),
        ensures
            rest.len() == 0,
        decreases budget - found@.len(),
    {
        let ghost n = found@.len() as int;
        match find_hit(hay, needle, words, whole_word, from) {
            None => {
                break;
            },
            Some(at) => {
                let ghost next = hits(
                    hay@,
                    needle@,
                    words@,
                    whole_word,
                    at + needle@.len(),
                    (budget - n - 1) as nat,
                );
                proof {
                    next_hit_is_first(hay@, needle@, words@, whole_word, from as int);
                    assert(rest == seq![at as int] + next);
                    assert(rest[0] == at);
                    assert(places[n] == rest[0]);
                }
                let ghost before = found.deep_view();
                let one = match_in(file, &lines, hay, at);
                found.push(one);
                assert(found.deep_view() == before.push(one.deep_view()));
                from = at + needle.len();
                proof {
                    assert(next == rest.subrange(1, rest.len() as int));
                    rest = next;
                    assert(found.deep_view() == matches_at(
                        file@,
                        text@,
                        hay@,
                        places.subrange(0, n + 1),
                    ));
                }
            },
        }
    }
    assert(places.subrange(0, found@.len() as int) == places);
    found
}

// ---------------------------------------------------------------------------
// The query
// ---------------------------------------------------------------------------

/// A text as a query compares it: as it stands where case matters, else in lower case.
pub open spec fn folded(case_sensitive: bool, text: Seq<char>) -> Seq<char> {
    if case_sensitive {
        text
    } else {
        lowercase(text)
    }
}

fn fold(case_sensitive: bool, text: &str) -> (chars: Vec<char>)
    ensures
        chars@ == folded(case_sensitive, text@),
{
    if case_sensitive {
        chars_of(text)
    } else {
        chars_of(text.to_lowercase().as_str())
    }
}

/// What is sought.
pub struct Query {
    /// The text that is sought, folded. It is never empty.
    pub needle: Vec<char>,
    pub case_sensitive: bool,
    pub whole_word: bool,
}

/// The mathematical value of a [`Query`].
pub struct QueryView {
    pub needle: Seq<char>,
    pub case_sensitive: bool,
    pub whole_word: bool,
}

impl View for Query {
    type V = QueryView;

    open spec fn view(&self) -> QueryView {
        QueryView {
            needle: self.needle@,
            case_sensitive: self.case_sensitive,
            whole_word: self.whole_word,
        }
    }
}

/// The query for a text.
pub open spec fn query_for(text: Seq<char>, case_sensitive: bool, whole_word: bool) -> QueryView {
    QueryView { needle: folded(case_sensitive, text), case_sensitive, whole_word }
}

impl Query {
    /// What holds of every query: there is something to seek.
    pub open spec fn wf(self) -> bool {
        self.needle@.len() > 0
    }

    /// The query for a text, unless the text is empty or folds to nothing.
    pub fn new(text: &str, case_sensitive: bool, whole_word: bool) -> (query: Option<Query>)
        ensures
            match query {
                Some(q) => q.wf() && text@.len() > 0 && q@ == query_for(
                    text@,
                    case_sensitive,
                    whole_word,
                ),
                None => text@.len() == 0 || folded(case_sensitive, text@).len() == 0,
            },
    {
        if text.is_empty() {
            return None;
        }
        let needle = fold(case_sensitive, text);
        if needle.len() == 0 {
            return None;
        }
        Some(Query { needle, case_sensitive, whole_word })
    }
}

/// Which characters of a folded text are part of a word, where a query asks for that.
fn flags_for(query: &Query, hay: &Vec<char>) -> (words: Vec<bool>)
    ensures
        query.whole_word ==> words@ == words_of(hay@),
{
    if query.whole_word {
        word_flags(hay)
    } else {
        Vec::new()
    }
}

/// Words do not matter to a search that does not ask for them.
proof fn words_are_unread(
    hay: Seq<char>,
    needle: Seq<char>,
    a: Seq<bool>,
    b: Seq<bool>,
    from: int,
    budget: nat,
)
    requires
        0 <= from,
    ensures
        hit_anywhere(hay, needle, a, false) == hit_anywhere(hay, needle, b, false),
        hits(hay, needle, a, false, from, budget) == hits(hay, needle, b, false, from, budget),
    decreases budget,
{
    assert forall|at: int|
        #![trigger hit_at(hay, needle, a, false, at)]
        #![trigger hit_at(hay, needle, b, false, at)]
        hit_at(hay, needle, a, false, at) == hit_at(hay, needle, b, false, at) by {}
    if budget > 0 {
        same_next_hit(hay, needle, a, b, from);
        next_hit_is_first(hay, needle, a, false, from);
        if let Some(at) = next_hit(hay, needle, a, false, from) {
            words_are_unread(hay, needle, a, b, at + needle.len(), (budget - 1) as nat);
        }
    }
}

proof fn same_next_hit(
    hay: Seq<char>,
    needle: Seq<char>,
    a: Seq<bool>,
    b: Seq<bool>,
    from: int,
)
    ensures
        next_hit(hay, needle, a, false, from) == next_hit(hay, needle, b, false, from),
    decreases hay.len() + 1 - from,
{
    if from <= hay.len() {
        same_next_hit(hay, needle, a, b, from + 1);
    }
}

// ---------------------------------------------------------------------------
// Paths
// ---------------------------------------------------------------------------

/// The hits in paths, and the files whose contents are searched, by their place in the walk.
pub struct PathScan {
    pub paths: Vec<PathHit>,
    pub files: Vec<usize>,
    pub truncated: bool,
}

/// The mathematical value of a [`PathScan`].
pub struct PathScanView {
    pub paths: Seq<PathHitView>,
    pub files: Seq<usize>,
    pub truncated: bool,
}

impl View for PathScan {
    type V = PathScanView;

    open spec fn view(&self) -> PathScanView {
        PathScanView {
            paths: self.paths.deep_view(),
            files: self.files@,
            truncated: self.truncated,
        }
    }
}

/// The hit that an entry is.
pub open spec fn hit_of(entry: (Seq<char>, bool)) -> PathHitView {
    PathHitView {
        path: entry.0,
        kind: if entry.1 {
            "dir"@
        } else {
            "file"@
        },
    }
}

/// The hits among the first `n` entries, and the files among them. The entry that would be one hit
/// too many ends the scan: neither it nor what follows counts.
pub open spec fn paths_among(
    entries: Seq<(Seq<char>, bool)>,
    hit: Seq<bool>,
    n: int,
) -> PathScanView
    decreases n,
{
    if n <= 0 {
        PathScanView { paths: seq![], files: seq![], truncated: false }
    } else {
        let before = paths_among(entries, hit, n - 1);
        if before.truncated {
            before
        } else if hit[n - 1] && before.paths.len() >= SEARCH_MAX_PATHS {
            PathScanView { truncated: true, ..before }
        } else {
            PathScanView {
                paths: if hit[n - 1] {
                    before.paths.push(hit_of(entries[n - 1]))
                } else {
                    before.paths
                },
                files: if entries[n - 1].1 {
                    before.files
                } else {
                    before.files.push((n - 1) as usize)
                },
                truncated: false,
            }
        }
    }
}

/// Which entries are hit.
pub open spec fn entries_hit(query: QueryView, entries: Seq<(Seq<char>, bool)>) -> Seq<bool> {
    Seq::new(
        entries.len(),
        |i: int|
            {
                let hay = folded(query.case_sensitive, entries[i].0);
                hit_anywhere(hay, query.needle, words_of(hay), query.whole_word)
            },
    )
}

/// The hits among the entries of a walk, and the files among them, where `hit` tells which entries
/// are hit.
pub fn collect_paths(entries: &Vec<(String, bool)>, hit: &Vec<bool>) -> (scan: PathScan)
    requires
        hit@.len() == entries@.len(),
    ensures
        scan@ == paths_among(entries.deep_view(), hit@, entries@.len() as int),
{
    let mut scan = PathScan { paths: Vec::new(), files: Vec::new(), truncated: false };
    assert(scan.paths.deep_view() == Seq::<PathHitView>::empty());
    let mut i: usize = 0;
    while i < entries.len()
        invariant
            i <= entries@.len(),
            hit@.len() == entries@.len(),
            !scan.truncated,
            scan@ == paths_among(entries.deep_view(), hit@, i as int),
        decreases entries@.len() - i,
    {
        let ghost before = scan@;
        assert(entries.deep_view()[i as int] == (entries@[i as int].0@, entries@[i as int].1));
        let is_dir = entries[i].1;
        if hit[i] {
            if scan.paths.len() >= SEARCH_MAX_PATHS {
                scan.truncated = true;
                proof {
                    stays_truncated(entries.deep_view(), hit@, i + 1, entries@.len() as int);
                }
                return scan;
            }
            let kind = if is_dir {
                "dir"
            } else {
                "file"
            };
            let one = PathHit { path: entries[i].0.clone(), kind: kind.to_string() };
            scan.paths.push(one);
            assert(scan.paths.deep_view() == before.paths.push(one.deep_view()));
        }
        if !is_dir {
            scan.files.push(i);
        }
        i = i + 1;
    }
    scan
}

proof fn stays_truncated(entries: Seq<(Seq<char>, bool)>, hit: Seq<bool>, m: int, n: int)
    requires
        m <= n,
        paths_among(entries, hit, m).truncated,
    ensures
        paths_among(entries, hit, n) == paths_among(entries, hit, m),
    decreases n - m,
{
    if m < n {
        stays_truncated(entries, hit, m, n - 1);
    }
}

/// The hits of a query among the entries of a walk, and the files among them.
pub fn path_hits(query: &Query, entries: &Vec<(String, bool)>) -> (scan: PathScan)
    ensures
        scan@ == paths_among(
            entries.deep_view(),
            entries_hit(query@, entries.deep_view()),
            entries@.len() as int,
        ),
{
    let mut hit: Vec<bool> = Vec::new();
    let mut i: usize = 0;
    while i < entries.len()
        invariant
            i <= entries@.len(),
            hit@.len() == i,
            forall|k: int|
                0 <= k < i ==> #[trigger] hit@[k] == entries_hit(query@, entries.deep_view())[k],
        decreases entries@.len() - i,
    {
        let hay = fold(query.case_sensitive, entries[i].0.as_str());
        let words = flags_for(query, &hay);
        assert(entries.deep_view()[i as int] == (entries@[i as int].0@, entries@[i as int].1));
        proof {
            if !query.whole_word {
                words_are_unread(hay@, query.needle@, words@, words_of(hay@), 0, 0);
            }
        }
        hit.push(path_matches(&hay, &query.needle, &words, query.whole_word));
        i = i + 1;
    }
    assert(hit@ == entries_hit(query@, entries.deep_view()));
    collect_paths(entries, &hit)
}

// ---------------------------------------------------------------------------
// Contents
// ---------------------------------------------------------------------------

/// Whether some contents look binary: there is a NUL among the first bytes.
pub open spec fn binary(bytes: Seq<u8>) -> bool {
    exists|i: int| 0 <= i < bytes.len() && i < SNIFF_BYTES && #[trigger] bytes[i] == 0
}

/// Whether some contents look binary: there is a NUL among the first bytes.
pub fn looks_binary(bytes: &[u8]) -> (b: bool)
    ensures
        b == binary(bytes@),
{
    let mut i: usize = 0;
    while i < bytes.len() && i < SNIFF_BYTES
        invariant
            i <= bytes@.len(),
            forall|k: int| 0 <= k < i ==> #[trigger] bytes@[k] != 0,
        decreases bytes@.len() - i,
    {
        if bytes[i] == 0 {
            return true;
        }
        i = i + 1;
    }
    false
}

/// What has been found in the contents of files so far.
pub struct ContentScan {
    pub matches: Vec<SearchMatch>,
    pub files_scanned: usize,
    pub truncated: bool,
    pub done: bool,
}

/// The mathematical value of a [`ContentScan`].
pub struct ContentScanView {
    pub matches: Seq<SearchMatchView>,
    pub files_scanned: int,
    pub truncated: bool,
    pub done: bool,
}

impl View for ContentScan {
    type V = ContentScanView;

    open spec fn view(&self) -> ContentScanView {
        ContentScanView {
            matches: self.matches.deep_view(),
            files_scanned: self.files_scanned as int,
            truncated: self.truncated,
            done: self.done,
        }
    }
}

/// What holds of a scan at any time: its limits are kept.
pub open spec fn within_limits(scan: ContentScanView) -> bool {
    &&& scan.matches.len() <= SEARCH_MAX_MATCHES
    &&& 0 <= scan.files_scanned <= SEARCH_MAX_FILES
    &&& scan.done ==> scan.truncated
}

/// The scan before anything was looked at.
pub open spec fn nothing_scanned() -> ContentScanView {
    ContentScanView { matches: seq![], files_scanned: 0, truncated: false, done: false }
}

/// The scan as it faces one file more: it ends where there is no room for a match.
pub open spec fn facing_file(scan: ContentScanView) -> ContentScanView {
    if !scan.done && scan.matches.len() >= SEARCH_MAX_MATCHES {
        ContentScanView { truncated: true, done: true, ..scan }
    } else {
        scan
    }
}

/// How many matches the next file may bring.
pub open spec fn budget_of(scan: ContentScanView) -> int {
    if SEARCH_MAX_MATCHES - scan.matches.len() < SEARCH_MAX_PER_FILE {
        SEARCH_MAX_MATCHES - scan.matches.len()
    } else {
        SEARCH_MAX_PER_FILE as int
    }
}

/// The places in a folded text that count as matches.
pub open spec fn places_in(query: QueryView, hay: Seq<char>, words: Seq<bool>, budget: int) -> Seq<
    int,
> {
    hits(hay, query.needle, words, query.whole_word, 0, budget as nat)
}

/// The scan after the text of one file more. A file that brings all it may counts as cut off.
pub open spec fn text_scanned(
    scan: ContentScanView,
    query: QueryView,
    file: Seq<char>,
    text: Seq<char>,
    hay: Seq<char>,
    words: Seq<bool>,
) -> ContentScanView {
    if scan.done {
        scan
    } else if scan.files_scanned >= SEARCH_MAX_FILES {
        ContentScanView { truncated: true, done: true, ..scan }
    } else {
        let places = places_in(query, hay, words, budget_of(scan));
        ContentScanView {
            matches: scan.matches + matches_at(file, text, hay, places),
            files_scanned: scan.files_scanned + 1,
            truncated: scan.truncated || places.len() == budget_of(scan),
            done: false,
        }
    }
}

/// The scan after the contents of one file more. Binary contents are passed over.
pub open spec fn file_scanned(
    scan: ContentScanView,
    query: QueryView,
    file: Seq<char>,
    content: Seq<u8>,
) -> ContentScanView {
    if binary(content) {
        scan
    } else {
        let text = utf8_lossy(content);
        let hay = folded(query.case_sensitive, text);
        text_scanned(scan, query, file, text, hay, words_of(hay))
    }
}

impl ContentScan {
    /// A scan that has looked at nothing.
    pub fn new() -> (scan: ContentScan)
        ensures
            scan@ == nothing_scanned(),
            within_limits(scan@),
    {
        let matches: Vec<SearchMatch> = Vec::new();
        assert(matches.deep_view() == Seq::<SearchMatchView>::empty());
        ContentScan { matches, files_scanned: 0, truncated: false, done: false }
    }

    /// Whether the next file is to be read.
    pub fn wants_file(&mut self) -> (wanted: bool)
        requires
            within_limits(old(self)@),
        ensures
            final(self)@ == facing_file(old(self)@),
            wanted == !final(self)@.done,
            within_limits(final(self)@),
    {
        if !self.done && self.matches.len() >= SEARCH_MAX_MATCHES {
            self.truncated = true;
            self.done = true;
        }
        !self.done
    }

    /// Takes in the text of a file: `hay` is the text folded as the query asks, and `words` tells
    /// which of its characters are part of a word.
    pub fn take_text(
        &mut self,
        query: &Query,
        file: &str,
        text: &str,
        hay: &Vec<char>,
        words: &Vec<bool>,
    )
        requires
            within_limits(old(self)@),
            query.wf(),
            query.whole_word ==> words@.len() == hay@.len(),
        ensures
            final(self)@ == text_scanned(old(self)@, query@, file@, text@, hay@, words@),
            within_limits(final(self)@),
    {
        if self.done {
            return;
        }
        if self.files_scanned >= SEARCH_MAX_FILES {
            self.truncated = true;
            self.done = true;
            return;
        }
        let room: usize = SEARCH_MAX_MATCHES - self.matches.len();
        let budget: usize = if room < SEARCH_MAX_PER_FILE {
            room
        } else {
            SEARCH_MAX_PER_FILE
        };
        let ghost before = self@;
        assert(budget == budget_of(before));
        let mut found = scan_text(
            file,
            text,
            hay,
            &query.needle,
            words,
            query.whole_word,
            budget,
        );
        proof {
            hits_within_budget(hay@, query.needle@, words@, query.whole_word, 0, budget as nat);
            assert(found.deep_view().len() == found@.len());
        }
        if found.len() == budget {
            self.truncated = true;
        }
        let ghost added = found.deep_view();
        self.matches.append(&mut found);
        assert(self.matches.deep_view() == before.matches + added);
        self.files_scanned = self.files_scanned + 1;
    }

    /// Takes in the contents of a file.
    pub fn take_file(&mut self, query: &Query, file: &str, content: &[u8])
        requires
            within_limits(old(self)@),
            query.wf(),
        ensures
            final(self)@ == file_scanned(old(self)@, query@, file@, content@),
            within_limits(final(self)@),
    {
        if looks_binary(content) {
            return;
        }
        let text = text_from_utf8_lossy(content);
        let hay = fold(query.case_sensitive, text.as_str());
        let words = flags_for(query, &hay);
        proof {
            if !query.whole_word {
                words_are_unread(
                    hay@,
                    query.needle@,
                    words@,
                    words_of(hay@),
                    0,
                    budget_of(self@) as nat,
                );
            }
        }
        self.take_text(query, file, text.as_str(), &hay, &words);
    }
}

/// There are no more hits than the budget.
pub proof fn hits_within_budget(
    hay: Seq<char>,
    needle: Seq<char>,
    words: Seq<bool>,
    whole_word: bool,
    from: int,
    budget: nat,
)
    ensures
        hits(hay, needle, words, whole_word, from, budget).len() <= budget,
    decreases budget,
{
    if budget > 0 {
        if let Some(at) = next_hit(hay, needle, words, whole_word, from) {
            hits_within_budget(
                hay,
                needle,
                words,
                whole_word,
                at + needle.len(),
                (budget - 1) as nat,
            );
        }
    }
}

/// The outcome of a search for nothing.
pub open spec fn nothing_found() -> SearchOutcomeView {
    SearchOutcomeView { matches: seq![], paths: seq![], truncated: false }
}

/// The outcome of the scans of paths and of contents.
pub open spec fn outcome_of(paths: PathScanView, contents: ContentScanView) -> SearchOutcomeView {
    SearchOutcomeView {
        matches: contents.matches,
        paths: paths.paths,
        truncated: paths.truncated || contents.truncated,
    }
}

impl SearchOutcome {
    /// The outcome of a search for nothing.
    pub fn empty() -> (outcome: SearchOutcome)
        ensures
            outcome.deep_view() == nothing_found(),
    {
        let outcome = SearchOutcome { matches: Vec::new(), paths: Vec::new(), truncated: false };
        assert(outcome.matches.deep_view() == Seq::<SearchMatchView>::empty());
        assert(outcome.paths.deep_view() == Seq::<PathHitView>::empty());
        outcome
    }

    /// The outcome of the scans of paths and of contents.
    pub fn of(paths: PathScan, contents: ContentScan) -> (outcome: SearchOutcome)
        ensures
            outcome.deep_view() == outcome_of(paths@, contents@),
    {
        SearchOutcome {
            matches: contents.matches,
            paths: paths.paths,
            truncated: paths.truncated || contents.truncated,
        }
    }
}

// ---------------------------------------------------------------------------
// The whole search
// ---------------------------------------------------------------------------

/// The scan after the first `n` of the files `files`, each given by its place in the walk. What
/// could not be read is passed over.
pub open spec fn files_scanned(
    query: QueryView,
    entries: Seq<(Seq<char>, bool)>,
    contents: Seq<Option<Seq<u8>>>,
    files: Seq<usize>,
    n: int,
) -> ContentScanView
    decreases n,
{
    if n <= 0 {
        nothing_scanned()
    } else {
        let scan = facing_file(files_scanned(query, entries, contents, files, n - 1));
        let at = files[n - 1] as int;
        if scan.done {
            scan
        } else {
            match contents[at] {
                None => scan,
                Some(content) => file_scanned(scan, query, entries[at].0, content),
            }
        }
    }
}

/// What a query finds among the entries of a walk with these contents.
pub open spec fn found_by(
    query: QueryView,
    entries: Seq<(Seq<char>, bool)>,
    contents: Seq<Option<Seq<u8>>>,
) -> SearchOutcomeView {
    let paths = paths_among(entries, entries_hit(query, entries), entries.len() as int);
    outcome_of(
        paths,
        files_scanned(query, entries, contents, paths.files, paths.files.len() as int),
    )
}

/// The files of a path scan are entries that are no directories.
pub proof fn scanned_files_are_files(entries: Seq<(Seq<char>, bool)>, hit: Seq<bool>, n: int)
    requires
        n <= entries.len() <= usize::MAX,
    ensures
        forall|k: int|
            0 <= k < paths_among(entries, hit, n).files.len() ==> (#[trigger] paths_among(
                entries,
                hit,
                n,
            ).files[k]) < n && !entries[paths_among(entries, hit, n).files[k] as int].1,
    decreases n,
{
    if n > 0 {
        scanned_files_are_files(entries, hit, n - 1);
        let before = paths_among(entries, hit, n - 1).files;
        let files = paths_among(entries, hit, n).files;
        assert forall|k: int| 0 <= k < files.len() implies (#[trigger] files[k]) < n
            && !entries[files[k] as int].1 by {
            if k < before.len() {
                assert(files[k] == before[k]);
            }
        }
    }
}

/// A search: the entries of a walk, the hits among their paths, and what the contents of the files
/// have brought so far. It asks for one file after the other.
pub struct Search {
    pub query: Query,
    pub entries: Vec<(String, bool)>,
    pub paths: PathScan,
    pub scan: ContentScan,
    /// How many of the files have been asked for.
    pub asked: usize,
}

/// The mathematical value of a [`Search`].
pub struct SearchView {
    pub query: QueryView,
    pub entries: Seq<(Seq<char>, bool)>,
    pub paths: PathScanView,
    pub scan: ContentScanView,
    pub asked: int,
}

impl View for Search {
    type V = SearchView;

    open spec fn view(&self) -> SearchView {
        SearchView {
            query: self.query@,
            entries: self.entries.deep_view(),
            paths: self.paths@,
            scan: self.scan@,
            asked: self.asked as int,
        }
    }
}

/// A search before its first file.
pub open spec fn begun(query: QueryView, entries: Seq<(Seq<char>, bool)>) -> SearchView {
    SearchView {
        query,
        entries,
        paths: paths_among(entries, entries_hit(query, entries), entries.len() as int),
        scan: nothing_scanned(),
        asked: 0,
    }
}

/// The next file that a search asks for, by its place among the entries, where it goes on.
pub open spec fn file_asked(search: SearchView) -> (SearchView, Option<usize>) {
    let scan = facing_file(search.scan);
    if search.asked >= search.paths.files.len() {
        (search, None)
    } else if scan.done {
        (SearchView { scan, ..search }, None)
    } else {
        (
            SearchView { scan, asked: search.asked + 1, ..search },
            Some(search.paths.files[search.asked]),
        )
    }
}

/// The search after the contents of an entry, where they could be read.
pub open spec fn content_taken(
    search: SearchView,
    at: int,
    content: Option<Seq<u8>>,
) -> SearchView {
    match content {
        None => search,
        Some(bytes) => SearchView {
            scan: file_scanned(search.scan, search.query, search.entries[at].0, bytes),
            ..search
        },
    }
}

impl Search {
    /// What holds of a search at any time.
    pub open spec fn wf(self) -> bool {
        &&& self.query.wf()
        &&& within_limits(self.scan@)
        &&& self.asked <= self.paths.files@.len()
        &&& forall|k: int|
            0 <= k < self.paths.files@.len() ==> (#[trigger] self.paths.files@[k])
                < self.entries@.len()
    }

    /// A search for a text among the entries of a walk, unless there is nothing to seek.
    pub fn new(
        entries: Vec<(String, bool)>,
        text: &str,
        case_sensitive: bool,
        whole_word: bool,
    ) -> (search: Option<Search>)
        ensures
            match search {
                Some(s) => s.wf() && text@.len() > 0 && folded(case_sensitive, text@).len() > 0
                    && s@ == begun(
                    query_for(text@, case_sensitive, whole_word),
                    entries.deep_view(),
                ),
                None => text@.len() == 0 || folded(case_sensitive, text@).len() == 0,
            },
    {
        let query = match Query::new(text, case_sensitive, whole_word) {
            Some(query) => query,
            None => {
                return None;
            },
        };
        let paths = path_hits(&query, &entries);
        let total: usize = entries.len();
        proof {
            let list = entries.deep_view();
            assert(list.len() == total);
            scanned_files_are_files(list, entries_hit(query@, list), list.len() as int);
            assert forall|k: int| 0 <= k < paths.files@.len() implies (#[trigger] paths.files@[k])
                < entries@.len() by {
                assert(paths@.files[k] == paths.files@[k]);
            }
        }
        Some(Search { query, entries, paths, scan: ContentScan::new(), asked: 0 })
    }

    /// The next file to read, by its place among the entries, where the search goes on.
    pub fn next_file(&mut self) -> (at: Option<usize>)
        requires
            old(self).wf(),
        ensures
            final(self).wf(),
            (final(self)@, at) == file_asked(old(self)@),
            at matches Some(p) ==> p < final(self).entries@.len(),
    {
        if self.asked >= self.paths.files.len() {
            return None;
        }
        if !self.scan.wants_file() {
            return None;
        }
        let at: usize = self.paths.files[self.asked];
        self.asked = self.asked + 1;
        Some(at)
    }

    /// Takes in the contents of the file that was asked for, where they could be read.
    pub fn take_file(&mut self, at: usize, content: Option<&[u8]>)
        requires
            old(self).wf(),
            at < old(self).entries@.len(),
        ensures
            final(self).wf(),
            final(self)@ == content_taken(
                old(self)@,
                at as int,
                match content {
                    Some(bytes) => Some(bytes@),
                    None => None,
                },
            ),
    {
        if let Some(bytes) = content {
            assert(self.entries.deep_view()[at as int].0 == self.entries@[at as int].0@);
            self.scan.take_file(&self.query, self.entries[at].0.as_str(), bytes);
        }
    }

    /// What the search has found.
    pub fn finish(self) -> (outcome: SearchOutcome)
        ensures
            outcome.deep_view() == outcome_of(self@.paths, self@.scan),
    {
        SearchOutcome::of(self.paths, self.scan)
    }
}

/// Searches the entries of a walk: paths first, then the contents of the files among them.
/// `contents` holds what each entry contains, where it could be read.
pub fn search_in_dir(
    entries: Vec<(String, bool)>,
    contents: &Vec<Option<Vec<u8>>>,
    text: &str,
    case_sensitive: bool,
    whole_word: bool,
) -> (outcome: SearchOutcome)
    requires
        contents@.len() == entries@.len(),
    ensures
        outcome.deep_view() == (if text@.len() == 0 || folded(case_sensitive, text@).len() == 0 {
            nothing_found()
        } else {
            found_by(
                query_for(text@, case_sensitive, whole_word),
                entries.deep_view(),
                contents.deep_view(),
            )
        }),
{
    let ghost list = entries.deep_view();
    let ghost held = contents.deep_view();
    let ghost query = query_for(text@, case_sensitive, whole_word);
    let mut search = match Search::new(entries, text, case_sensitive, whole_word) {
        Some(search) => search,
        None => {
            return SearchOutcome::empty();
        },
    };
    let ghost paths = search@.paths;
    loop
        invariant_except_break
            search@.scan == files_scanned(query, list, held, paths.files, search@.asked),
        invariant
            search.wf(),
            search@.query == query,
            search@.entries == list,
            search@.paths == paths,
            held == contents.deep_view(),
            contents@.len() == search@.entries.len(),
        ensures
            search@.scan == files_scanned(
                query,
                list,
                held,
                paths.files,
                paths.files.len() as int,
            ),
        decreases paths.files.len() - search@.asked,
    {
        let ghost before = search@;
        match search.next_file() {
            None => {
                proof {
                    if before.asked < paths.files.len() {
                        ended_scan_stays(
                            query,
                            list,
                            held,
                            paths.files,
                            before.asked,
                            paths.files.len() as int,
                        );
                    }
                }
                break;
            },
            Some(at) => {
                assert(held[at as int] == contents@[at as int].deep_view());
                match &contents[at] {
                    Some(content) => {
                        assert(content.deep_view() == content@);
                        search.take_file(at, Some(content.as_slice()));
                    },
                    None => {
                        search.take_file(at, None);
                    },
                }
            },
        }
    }
    search.finish()
}

proof fn ended_scan_stays(
    query: QueryView,
    entries: Seq<(Seq<char>, bool)>,
    contents: Seq<Option<Seq<u8>>>,
    files: Seq<usize>,
    m: int,
    n: int,
)
    requires
        0 <= m < n,
        facing_file(files_scanned(query, entries, contents, files, m)).done,
    ensures
        files_scanned(query, entries, contents, files, n) == facing_file(
            files_scanned(query, entries, contents, files, m),
        ),
    decreases n - m,
{
    if m + 1 < n {
        ended_scan_stays(query, entries, contents, files, m, n - 1);
    }
}

// ---------------------------------------------------------------------------
// Laws
// ---------------------------------------------------------------------------

/// Every place that a scan reports is a hit at or after its start, and no two of them overlap.
pub proof fn hits_are_hits(
    hay: Seq<char>,
    needle: Seq<char>,
    words: Seq<bool>,
    whole_word: bool,
    from: int,
    budget: nat,
)
    requires
        0 <= from,
    ensures
        ({
            let places = hits(hay, needle, words, whole_word, from, budget);
            &&& forall|i: int|
                0 <= i < places.len() ==> from <= #[trigger] places[i] && hit_at(
                    hay,
                    needle,
                    words,
                    whole_word,
                    places[i],
                )
            &&& forall|i: int, j: int|
                0 <= i < j < places.len() ==> #[trigger] places[i] + needle.len()
                    <= #[trigger] places[j]
        }),
    decreases budget,
{
    if budget > 0 {
        next_hit_is_first(hay, needle, words, whole_word, from);
        if let Some(at) = next_hit(hay, needle, words, whole_word, from) {
            let next = at + needle.len();
            hits_are_hits(hay, needle, words, whole_word, next, (budget - 1) as nat);
            let rest = hits(hay, needle, words, whole_word, next, (budget - 1) as nat);
            let places = hits(hay, needle, words, whole_word, from, budget);
            assert(places == seq![at] + rest);
            assert forall|i: int| 0 <= i < places.len() implies from <= #[trigger] places[i]
                && hit_at(hay, needle, words, whole_word, places[i]) by {
                if i > 0 {
                    assert(places[i] == rest[i - 1]);
                }
            }
            assert forall|i: int, j: int| 0 <= i < j < places.len() implies #[trigger] places[i]
                + needle.len() <= #[trigger] places[j] by {
                assert(places[j] == rest[j - 1]);
                if i > 0 {
                    assert(places[i] == rest[i - 1]);
                }
            }
        }
    }
}

/// A scan that stays below its budget misses nothing: every hit begins within one that it reports.
pub proof fn no_hit_is_missed(
    hay: Seq<char>,
    needle: Seq<char>,
    words: Seq<bool>,
    whole_word: bool,
    from: int,
    budget: nat,
    at: int,
)
    requires
        0 <= from <= at,
        hits(hay, needle, words, whole_word, from, budget).len() < budget,
        hit_at(hay, needle, words, whole_word, at),
        needle.len() > 0,
    ensures
        exists|i: int|
            #![trigger hits(hay, needle, words, whole_word, from, budget)[i]]
            0 <= i < hits(hay, needle, words, whole_word, from, budget).len() && hits(
                hay,
                needle,
                words,
                whole_word,
                from,
                budget,
            )[i] <= at < hits(hay, needle, words, whole_word, from, budget)[i] + needle.len(),
    decreases budget,
{
    next_hit_is_first(hay, needle, words, whole_word, from);
    let places = hits(hay, needle, words, whole_word, from, budget);
    let first = next_hit(hay, needle, words, whole_word, from)->0;
    let next = first + needle.len();
    let rest = hits(hay, needle, words, whole_word, next, (budget - 1) as nat);
    assert(places == seq![first] + rest);
    if at < next {
        assert(places[0] <= at < places[0] + needle.len());
    } else {
        no_hit_is_missed(hay, needle, words, whole_word, next, (budget - 1) as nat, at);
        let i = choose|i: int|
            #![trigger rest[i]]
            0 <= i < rest.len() && rest[i] <= at < rest[i] + needle.len();
        assert(places[i + 1] == rest[i]);
    }
}

/// What is hit as a whole word is hit without that demand as well.
pub proof fn whole_words_are_substrings(
    hay: Seq<char>,
    needle: Seq<char>,
    words: Seq<bool>,
)
    requires
        hit_anywhere(hay, needle, words, true),
    ensures
        hit_anywhere(hay, needle, words, false),
        occurs(hay, needle),
{
    let at = choose|at: int| #[trigger] hit_at(hay, needle, words, true, at);
    assert(hit_at(hay, needle, words, false, at));
    assert(occurs_at(hay, needle, at));
}

/// A text has one line more than it has line ends.
proof fn lines_are_counted(s: Seq<char>)
    ensures
        split(s, '\n').len() == newlines(s) + 1,
        newlines(s) >= 0,
    decreases s.len(),
{
    if s.len() > 0 {
        assert(s.subrange(0, s.len() - 1) == s.drop_last());
        lines_are_counted(s.drop_last());
    }
}

/// Line ends add up.
proof fn newlines_add_up(s: Seq<char>, at: int)
    requires
        0 <= at <= s.len(),
    ensures
        newlines(s.subrange(0, at)) <= newlines(s),
        newlines(s.subrange(0, at)) == newlines(s) <==> line_end(s, at) == s.len(),
    decreases s.len() - at,
{
    if at == s.len() {
        assert(s.subrange(0, at) == s);
    } else {
        newlines_add_up(s, at + 1);
        assert(s.subrange(0, at + 1).drop_last() == s.subrange(0, at));
        line_is_around(s, at);
    }
}

/// A longer text has the same beginnings of lines.
proof fn line_start_in_longer(s: Seq<char>, at: int)
    requires
        0 <= at < s.len(),
    ensures
        line_start(s, at) == line_start(s.drop_last(), at),
    decreases at,
{
    if at > 0 && s[at - 1] != '\n' {
        line_start_in_longer(s, at - 1);
    }
}

/// In a longer text a line ends where it did, or goes on to the end.
proof fn line_end_in_longer(s: Seq<char>, at: int)
    requires
        0 <= at < s.len(),
    ensures
        line_end(s, at) == (if line_end(s.drop_last(), at) == s.len() - 1 && s.last() != '\n' {
            s.len() as int
        } else {
            line_end(s.drop_last(), at)
        }),
    decreases s.len() - at,
{
    reveal_with_fuel(line_end, 2);
    if at < s.len() - 1 && s[at] != '\n' {
        line_end_in_longer(s, at + 1);
    }
}

/// The line around a place is the one with as many line ends in front of it.
pub proof fn line_around_has_its_number(s: Seq<char>, at: int)
    requires
        0 <= at <= s.len(),
    ensures
        line_of(s, newlines(s.subrange(0, at))) == s.subrange(line_start(s, at), line_end(s, at)),
    decreases s.len(),
{
    lines_are_counted(s);
    newlines_add_up(s, at);
    line_is_around(s, at);
    lines_are_counted(s.subrange(0, at));
    let parts = split(s, '\n');
    let k = newlines(s.subrange(0, at));
    if s.len() == 0 {
        assert(parts[0] == s.subrange(0, 0));
    } else {
        let p = s.drop_last();
        let before = split(p, '\n');
        assert(s.subrange(0, s.len() - 1) == p);
        lines_are_counted(p);
        if at < s.len() {
            assert(s.subrange(0, at) == p.subrange(0, at));
            line_around_has_its_number(p, at);
            newlines_add_up(p, at);
            line_is_around(p, at);
            line_start_in_longer(s, at);
            line_end_in_longer(s, at);
            assert(before[k] == p.subrange(line_start(p, at), line_end(p, at)));
            if s.last() != '\n' && k == before.len() - 1 {
                assert(before[k].push(s.last()) == s.subrange(line_start(s, at), line_end(s, at)));
            } else {
                assert(p.subrange(line_start(p, at), line_end(p, at)) == s.subrange(
                    line_start(s, at),
                    line_end(s, at),
                ));
            }
        } else {
            assert(s.subrange(0, at) == s);
            if s.last() == '\n' {
                assert(parts[k] == s.subrange(at, at));
            } else {
                line_around_has_its_number(p, at - 1);
                assert(p.subrange(0, at - 1) == p);
                line_start_in_longer(s, at - 1);
                assert(before[k].push(s.last()) == s.subrange(line_start(s, at), at));
            }
        }
    }
}

/// A preview is the beginning of a line of the text itself, in its own case: of the line with the
/// match's number. Folding does not count, also where it changes how long the text is.
pub proof fn search_shows_the_line(
    file: Seq<char>,
    text: Seq<char>,
    hay: Seq<char>,
    at: int,
    place: int,
)
    requires
        0 <= at <= hay.len(),
        0 <= place <= text.len(),
        newlines(text.subrange(0, place)) == newlines(hay.subrange(0, at)),
    ensures
        match_at(file, text, hay, at).preview == first_chars(
            text.subrange(line_start(text, place), line_end(text, place)),
            PREVIEW_CHARS as int,
        ),
{
    line_around_has_its_number(text, place);
}

/// A file takes nothing back of what was found before it, and the limits are kept.
pub proof fn scanning_only_adds(
    scan: ContentScanView,
    query: QueryView,
    file: Seq<char>,
    content: Seq<u8>,
)
    requires
        within_limits(scan),
    ensures
        ({
            let next = file_scanned(scan, query, file, content);
            &&& within_limits(next)
            &&& next.matches.len() >= scan.matches.len()
            &&& next.matches.subrange(0, scan.matches.len() as int) == scan.matches
            &&& next.matches.len() <= scan.matches.len() + SEARCH_MAX_PER_FILE
            &&& forall|i: int|
                scan.matches.len() <= i < next.matches.len() ==> (#[trigger] next.matches[i]).file
                    == file
            &&& scan.truncated ==> next.truncated
        }),
{
    let text = utf8_lossy(content);
    let hay = folded(query.case_sensitive, text);
    hits_within_budget(
        hay,
        query.needle,
        words_of(hay),
        query.whole_word,
        0,
        budget_of(scan) as nat,
    );
    let next = file_scanned(scan, query, file, content);
    assert(next.matches.subrange(0, scan.matches.len() as int) == scan.matches);
}

/// The hits in paths stay within their limit, and each is an entry that is hit. Where nothing was
/// cut off, every entry that is hit is among them, and every file's contents are searched.
pub proof fn path_hits_are_complete(entries: Seq<(Seq<char>, bool)>, hit: Seq<bool>, n: int)
    requires
        0 <= n <= entries.len() <= usize::MAX,
        hit.len() == entries.len(),
    ensures
        ({
            let scan = paths_among(entries, hit, n);
            &&& scan.paths.len() <= SEARCH_MAX_PATHS
            &&& forall|p: PathHitView| #[trigger]
                scan.paths.contains(p) ==> exists|i: int|
                    0 <= i < n && #[trigger] hit[i] && p == hit_of(entries[i])
            &&& !scan.truncated ==> forall|i: int|
                0 <= i < n && #[trigger] hit[i] ==> scan.paths.contains(hit_of(entries[i]))
            &&& !scan.truncated ==> forall|i: int|
                0 <= i < n && !(#[trigger] entries[i]).1 ==> scan.files.contains(i as usize)
        }),
    decreases n,
{
    if n > 0 {
        path_hits_are_complete(entries, hit, n - 1);
        let before = paths_among(entries, hit, n - 1);
        let scan = paths_among(entries, hit, n);
        assert forall|p: PathHitView| #[trigger] scan.paths.contains(p) implies exists|i: int|
            0 <= i < n && #[trigger] hit[i] && p == hit_of(entries[i]) by {
            if !before.paths.contains(p) {
                assert(hit[n - 1] && p == hit_of(entries[n - 1])) by {
                    let k = choose|k: int| 0 <= k < scan.paths.len() && scan.paths[k] == p;
                    if k < before.paths.len() {
                        assert(before.paths[k] == p);
                    }
                }
            }
        }
        if !scan.truncated {
            assert forall|i: int| 0 <= i < n && #[trigger] hit[i] implies scan.paths.contains(
                hit_of(entries[i]),
            ) by {
                let p = hit_of(entries[i]);
                if i < n - 1 {
                    let k = choose|k: int| 0 <= k < before.paths.len() && before.paths[k] == p;
                    assert(scan.paths[k] == p);
                } else {
                    assert(scan.paths[before.paths.len() as int] == p);
                }
            }
            assert forall|i: int| 0 <= i < n && !(#[trigger] entries[i]).1 implies scan.files.contains(
                i as usize,
            ) by {
                if i < n - 1 {
                    let k = choose|k: int|
                        0 <= k < before.files.len() && before.files[k] == i as usize;
                    assert(scan.files[k] == i as usize);
                } else {
                    assert(scan.files[before.files.len() as int] == i as usize);
                }
            }
        }
    }
}

/// A word is made of letters, digits and underscores.
pub proof fn words_are_letters_digits_and_underscores(c: char)
    ensures
        word_char('_'),
        c != '_' ==> word_char(c) == alphanumeric(c),
{
}

/// Whether a needle is found at a place of a text: it occurs there, and where whole words are sought
/// neither the character in front nor the one behind is part of a word.
pub open spec fn found_at(
    hay: Seq<char>,
    needle: Seq<char>,
    whole_word: bool,
    at: int,
) -> bool {
    &&& occurs_at(hay, needle, at)
    &&& whole_word ==> (at == 0 || !word_char(hay[at - 1]))
    &&& whole_word ==> (at + needle.len() == hay.len() || !word_char(hay[at + needle.len()]))
}

/// Whether `places` are the places of a text to report: a needle is found at each, none lies within
/// another, there are no more than `budget`, and every place where the needle is found lies within
/// one of them, or behind them all where the budget is used up.
#[verifier::opaque]
pub open spec fn to_report(
    hay: Seq<char>,
    needle: Seq<char>,
    whole_word: bool,
    budget: int,
    places: Seq<int>,
) -> bool {
    let n = needle.len();
    &&& places.len() <= budget
    &&& forall|i: int| 0 <= i < places.len() ==> #[trigger] found_at(hay, needle, whole_word, places[i])
    &&& forall|i: int, j: int|
        0 <= i < j < places.len() ==> #[trigger] places[i] + n <= #[trigger] places[j]
    &&& forall|at: int| #[trigger]
        found_at(hay, needle, whole_word, at) ==> (exists|i: int|
            0 <= i < places.len() && #[trigger] places[i] <= at < places[i] + n) || (places.len()
            == budget && forall|i: int| 0 <= i < places.len() ==> #[trigger] places[i] + n <= at)
}

/// Whether a match tells of a place in the folded text of a file: its line counts from 1, its column
/// counts the bytes from the beginning of the line, and the preview is that line of the text itself,
/// or its first two hundred characters.
#[verifier::opaque]
pub open spec fn tells_place(
    file: Seq<char>,
    text: Seq<char>,
    hay: Seq<char>,
    at: int,
    found: SearchMatchView,
) -> bool {
    let before = newlines(hay.subrange(0, at));
    let line = if before < split(text, '\n').len() {
        split(text, '\n')[before]
    } else {
        Seq::empty()
    };
    &&& found.file == file
    &&& found.line == before + 1
    &&& exists|start: int|
        0 <= start <= at && (start == 0 || hay[start - 1] == '\n') && (forall|k: int|
            start <= k < at ==> #[trigger] hay[k] != '\n') && found.col == encode_utf8(
            #[trigger] hay.subrange(start, at),
        ).len()
    &&& line.len() <= 200 ==> found.preview == line
    &&& line.len() > 200 ==> found.preview == line.subrange(0, 200)
}

/// Line ends are counted: those of two texts in a row add up.
pub proof fn newlines_are_counted(a: Seq<char>, b: Seq<char>)
    ensures
        newlines(a + b) == newlines(a) + newlines(b),
        newlines(seq!['\n']) == 1,
        (forall|i: int| 0 <= i < a.len() ==> #[trigger] a[i] != '\n') ==> newlines(a) == 0,
    decreases a.len() + b.len(),
{
    let one = seq!['\n'];
    assert(one.drop_last() == Seq::<char>::empty());
    assert(newlines(one.drop_last()) == 0);
    if b.len() == 0 {
        assert(a + b == a);
        if a.len() > 0 && (forall|i: int| 0 <= i < a.len() ==> #[trigger] a[i] != '\n') {
            assert forall|i: int| 0 <= i < a.drop_last().len() implies #[trigger] a.drop_last()[i]
                != '\n' by {
                assert(a.drop_last()[i] == a[i]);
            }
            newlines_are_counted(a.drop_last(), b);
            assert(a[a.len() - 1] != '\n');
        }
    } else {
        newlines_are_counted(a, b.drop_last());
        assert((a + b).drop_last() == a + b.drop_last());
        assert((a + b).last() == b.last());
    }
}

/// Places behind which the budget leaves none are the places to report.
#[verifier::rlimit(40)]
proof fn hits_are_to_report(
    hay: Seq<char>,
    needle: Seq<char>,
    whole_word: bool,
    budget: nat,
)
    requires
        needle.len() > 0,
    ensures
        to_report(
            hay,
            needle,
            whole_word,
            budget as int,
            hits(hay, needle, words_of(hay), whole_word, 0, budget),
        ),
        hits(hay, needle, words_of(hay), whole_word, 0, budget).len() <= budget,
        forall|i: int|
            0 <= i < hits(hay, needle, words_of(hay), whole_word, 0, budget).len() ==> 0
                <= #[trigger] hits(hay, needle, words_of(hay), whole_word, 0, budget)[i]
                <= hay.len(),
{
    reveal(to_report);
    let words = words_of(hay);
    let places = hits(hay, needle, words, whole_word, 0, budget);
    hits_within_budget(hay, needle, words, whole_word, 0, budget);
    hits_are_hits(hay, needle, words, whole_word, 0, budget);
    assert forall|i: int| 0 <= i < places.len() implies #[trigger] found_at(
        hay,
        needle,
        whole_word,
        places[i],
    ) by {
        assert(hit_at(hay, needle, words, whole_word, places[i]));
    }
    assert forall|at: int| #[trigger] found_at(hay, needle, whole_word, at) implies (exists|i: int|
        0 <= i < places.len() && #[trigger] places[i] <= at < places[i] + needle.len()) || (
    places.len() == budget && forall|i: int|
        0 <= i < places.len() ==> #[trigger] places[i] + needle.len() <= at) by {
        assert(hit_at(hay, needle, words, whole_word, at));
        covered_or_behind(hay, needle, words, whole_word, 0, budget, at);
    }
}

#[verifier::rlimit(40)]
proof fn covered_or_behind(
    hay: Seq<char>,
    needle: Seq<char>,
    words: Seq<bool>,
    whole_word: bool,
    from: int,
    budget: nat,
    at: int,
)
    requires
        0 <= from <= at,
        hit_at(hay, needle, words, whole_word, at),
        needle.len() > 0,
    ensures
        ({
            let places = hits(hay, needle, words, whole_word, from, budget);
            (exists|i: int|
                0 <= i < places.len() && #[trigger] places[i] <= at < places[i] + needle.len())
                || (places.len() == budget && forall|i: int|
                0 <= i < places.len() ==> #[trigger] places[i] + needle.len() <= at)
        }),
    decreases budget,
{
    let places = hits(hay, needle, words, whole_word, from, budget);
    if budget > 0 {
        next_hit_is_first(hay, needle, words, whole_word, from);
        let first = next_hit(hay, needle, words, whole_word, from)->0;
        let next = first + needle.len();
        let rest = hits(hay, needle, words, whole_word, next, (budget - 1) as nat);
        assert(places == seq![first] + rest);
        assert(places[0] == first);
        if at >= next {
            covered_or_behind(hay, needle, words, whole_word, next, (budget - 1) as nat, at);
            if exists|i: int|
                0 <= i < rest.len() && #[trigger] rest[i] <= at < rest[i] + needle.len() {
                let i = choose|i: int|
                    0 <= i < rest.len() && #[trigger] rest[i] <= at < rest[i] + needle.len();
                assert(places[i + 1] == rest[i]);
            } else {
                assert forall|i: int| 0 <= i < places.len() implies #[trigger] places[i]
                    + needle.len() <= at by {
                    if i > 0 {
                        assert(places[i] == rest[i - 1]);
                    }
                }
            }
        }
    }
}

proof fn match_tells_its_place(file: Seq<char>, text: Seq<char>, hay: Seq<char>, at: int)
    requires
        0 <= at <= hay.len(),
    ensures
        tells_place(file, text, hay, at, match_at(file, text, hay, at)),
{
    reveal(tells_place);
    line_is_around(hay, at);
    let start = line_start(hay, at);
    assert(hay.subrange(0, at) == hay.subrange(0, start) + hay.subrange(start, at));
    encode_concat(hay.subrange(0, start), hay.subrange(start, at));
    lines_are_counted(hay.subrange(0, at));
}

/// Whether a file can be searched: none of its first bytes is NUL.
pub open spec fn searchable(content: Seq<u8>) -> bool {
    forall|i: int| 0 <= i < content.len() && i < 8192 ==> #[trigger] content[i] != 0
}

/// Whether the matches behind the first `before` tell of the places to report in a text, one for one.
pub open spec fn brought(
    file: Seq<char>,
    text: Seq<char>,
    hay: Seq<char>,
    query: QueryView,
    budget: int,
    before: int,
    matches: Seq<SearchMatchView>,
    places: Seq<int>,
) -> bool {
    &&& to_report(hay, query.needle, query.whole_word, budget, places)
    &&& matches.len() == before + places.len()
    &&& forall|i: int|
        0 <= i < places.len() ==> tells_place(
            file,
            text,
            hay,
            places[i],
            #[trigger] matches[before + i],
        )
}

/// A file adds a match for each place in its text where the needle is found, as long as there is room
/// for fifty of the file and a thousand in all, and nothing else: with and without whole words, and
/// whether or not case matters. A text that uses up the room counts as cut off.
#[verifier::rlimit(40)]
pub proof fn file_brings_its_matches(
    scan: ContentScanView,
    query: QueryView,
    file: Seq<char>,
    content: Seq<u8>,
    text: Seq<char>,
    hay: Seq<char>,
    budget: int,
)
    requires
        within_limits(scan),
        !scan.done,
        scan.files_scanned < 2000,
        query.needle.len() > 0,
        searchable(content),
        text == utf8_lossy(content),
        hay == (if query.case_sensitive {
            text
        } else {
            lowercase(text)
        }),
        budget == (if scan.matches.len() > 950 {
            1000 - scan.matches.len()
        } else {
            50
        }),
    ensures
        ({
            let next = file_scanned(scan, query, file, content);
            let before = scan.matches.len() as int;
            &&& next.matches.len() >= before
            &&& next.matches.subrange(0, before) == scan.matches
            &&& exists|places: Seq<int>| #[trigger]
                brought(file, text, hay, query, budget, before, next.matches, places)
            &&& next.truncated == (scan.truncated || next.matches.len() == before + budget)
            &&& next.files_scanned == scan.files_scanned + 1
            &&& !next.done
        }),
{
    assert(!binary(content)) by {
        if binary(content) {
            let i = choose|i: int|
                0 <= i < content.len() && i < SNIFF_BYTES && #[trigger] content[i] == 0;
            assert(content[i] == 0);
        }
    }
    let places = hits(hay, query.needle, words_of(hay), query.whole_word, 0, budget as nat);
    hits_are_to_report(hay, query.needle, query.whole_word, budget as nat);
    let next = file_scanned(scan, query, file, content);
    let before = scan.matches.len() as int;
    let found = matches_at(file, text, hay, places);
    assert(next.matches == scan.matches + found);
    assert(next.matches.subrange(0, before) == scan.matches);
    assert forall|i: int| 0 <= i < places.len() implies tells_place(
        file,
        text,
        hay,
        places[i],
        #[trigger] next.matches[before + i],
    ) by {
        match_tells_its_place(file, text, hay, places[i]);
        assert(next.matches[before + i] == found[i]);
    }
    assert(brought(file, text, hay, query, budget, before, next.matches, places));
}

/// What is passed over changes nothing: a file that looks binary, and everything once the search has
/// ended. The file behind the two-thousandth ends the search, and nothing is found in it.
pub proof fn other_files_bring_nothing(
    scan: ContentScanView,
    query: QueryView,
    file: Seq<char>,
    content: Seq<u8>,
)
    ensures
        !searchable(content) ==> file_scanned(scan, query, file, content) == scan,
        scan.done ==> file_scanned(scan, query, file, content) == scan,
        searchable(content) && !scan.done && scan.files_scanned >= 2000 ==> file_scanned(
            scan,
            query,
            file,
            content,
        ) == (ContentScanView { truncated: true, done: true, ..scan }),
{
    if binary(content) {
        let i = choose|i: int|
            0 <= i < content.len() && i < SNIFF_BYTES && #[trigger] content[i] == 0;
        assert(content[i] == 0);
    } else if !searchable(content) {
        let i = choose|i: int|
            0 <= i < content.len() && i < 8192 && !(#[trigger] content[i] != 0);
        assert(content[i] == 0);
    }
}

/// A text as a search reads it: as it stands where case matters, else in lower case.
pub open spec fn read_as(case_sensitive: bool, text: Seq<char>) -> Seq<char> {
    if case_sensitive {
        text
    } else {
        lowercase(text)
    }
}

/// Whether a match tells of a place in a file's contents where the query's needle is found.
pub open spec fn match_of_file(
    query: QueryView,
    entry: (Seq<char>, bool),
    content: Option<Seq<u8>>,
    at: int,
    found: SearchMatchView,
) -> bool {
    &&& !entry.1
    &&& content matches Some(bytes) && searchable(bytes) && found_at(
        read_as(query.case_sensitive, utf8_lossy(bytes)),
        query.needle,
        query.whole_word,
        at,
    ) && tells_place(
        entry.0,
        utf8_lossy(bytes),
        read_as(query.case_sensitive, utf8_lossy(bytes)),
        at,
        found,
    )
}

/// Whether a match tells of a place in the contents of an entry where the needle is found.
pub open spec fn tells_of_entry(
    query: QueryView,
    entry: (Seq<char>, bool),
    content: Option<Seq<u8>>,
    found: SearchMatchView,
) -> bool {
    exists|at: int| #[trigger] match_of_file(query, entry, content, at, found)
}

/// Whether a match tells of a place in one of the files where the needle is found.
pub open spec fn is_in_a_file(
    query: QueryView,
    entries: Seq<(Seq<char>, bool)>,
    contents: Seq<Option<Seq<u8>>>,
    found: SearchMatchView,
) -> bool {
    exists|i: int, at: int|
        0 <= i < entries.len() && #[trigger] match_of_file(
            query,
            entries[i],
            contents[i],
            at,
            found,
        )
}

/// Whether a place of a file lies within one of which a match tells.
pub open spec fn is_covered(
    query: QueryView,
    entry: (Seq<char>, bool),
    content: Option<Seq<u8>>,
    at: int,
    matches: Seq<SearchMatchView>,
) -> bool {
    exists|k: int, place: int|
        0 <= k < matches.len() && place <= at < place + query.needle.len()
            && #[trigger] match_of_file(query, entry, content, place, matches[k])
}

/// The room that a scan has for the matches of one file.
spec fn room_of(scan: ContentScanView) -> int {
    if scan.matches.len() > 950 {
        1000 - scan.matches.len()
    } else {
        50
    }
}

/// What a file brought are matches of that file, and below the budget nothing is left out.
#[verifier::rlimit(40)]
proof fn what_was_brought(
    query: QueryView,
    entry: (Seq<char>, bool),
    content: Seq<u8>,
    budget: int,
    before: int,
    matches: Seq<SearchMatchView>,
    places: Seq<int>,
)
    requires
        !entry.1,
        searchable(content),
        brought(
            entry.0,
            utf8_lossy(content),
            read_as(query.case_sensitive, utf8_lossy(content)),
            query,
            budget,
            before,
            matches,
            places,
        ),
    ensures
        forall|k: int|
            before <= k < matches.len() ==> tells_of_entry(query, entry, Some(content), #[trigger] matches[k]),
        matches.len() < before + budget && before >= 0 ==> forall|at: int| #[trigger]
            found_at(
                read_as(query.case_sensitive, utf8_lossy(content)),
                query.needle,
                query.whole_word,
                at,
            ) ==> is_covered(query, entry, Some(content), at, matches),
{
    reveal(to_report);
    let text = utf8_lossy(content);
    let hay = read_as(query.case_sensitive, text);
    assert forall|k: int| before <= k < matches.len() implies tells_of_entry(
        query,
        entry,
        Some(content),
        #[trigger] matches[k],
    ) by {
        let i = k - before;
        assert(matches[before + i] == matches[k]);
        assert(found_at(hay, query.needle, query.whole_word, places[i]));
        assert(match_of_file(query, entry, Some(content), places[i], matches[k]));
    }
    if matches.len() < before + budget && before >= 0 {
        assert forall|at: int| #[trigger]
            found_at(hay, query.needle, query.whole_word, at) implies is_covered(
            query,
            entry,
            Some(content),
            at,
            matches,
        ) by {
            let i = choose|i: int|
                0 <= i < places.len() && #[trigger] places[i] <= at < places[i]
                    + query.needle.len();
            assert(found_at(hay, query.needle, query.whole_word, places[i]));
            assert(match_of_file(query, entry, Some(content), places[i], matches[before + i]));
        }
    }
}

/// What one file adds are matches of that file, and below the room for it nothing is left out.
#[verifier::rlimit(40)]
proof fn one_file_more(
    scan: ContentScanView,
    query: QueryView,
    entry: (Seq<char>, bool),
    content: Seq<u8>,
)
    requires
        within_limits(scan),
        query.needle.len() > 0,
        !entry.1,
    ensures
        ({
            let next = file_scanned(scan, query, entry.0, content);
            let before = scan.matches.len() as int;
            &&& within_limits(next)
            &&& next.matches.len() >= before
            &&& next.matches.subrange(0, before) == scan.matches
            &&& scan.truncated ==> next.truncated
            &&& forall|k: int|
                before <= k < next.matches.len() ==> tells_of_entry(
                    query,
                    entry,
                    Some(content),
                    #[trigger] next.matches[k],
                )
            &&& !next.truncated && searchable(content) ==> forall|at: int| #[trigger]
                found_at(
                    read_as(query.case_sensitive, utf8_lossy(content)),
                    query.needle,
                    query.whole_word,
                    at,
                ) ==> is_covered(query, entry, Some(content), at, next.matches)
        }),
{
    let next = file_scanned(scan, query, entry.0, content);
    let m = scan.matches.len() as int;
    scanning_only_adds(scan, query, entry.0, content);
    other_files_bring_nothing(scan, query, entry.0, content);
    if searchable(content) && scan.files_scanned < 2000 && !scan.done {
        let text = utf8_lossy(content);
        let hay = read_as(query.case_sensitive, text);
        let budget = room_of(scan);
        file_brings_its_matches(scan, query, entry.0, content, text, hay, budget);
        let places = choose|places: Seq<int>| #[trigger]
            brought(entry.0, text, hay, query, budget, m, next.matches, places);
        reveal(to_report);
        assert(next.matches.len() <= m + budget);
        what_was_brought(query, entry, content, budget, m, next.matches, places);
    }
}

#[verifier::rlimit(40)]
proof fn scanned_so_far(
    query: QueryView,
    entries: Seq<(Seq<char>, bool)>,
    contents: Seq<Option<Seq<u8>>>,
    files: Seq<usize>,
    n: int,
)
    requires
        0 <= n <= files.len(),
        contents.len() == entries.len(),
        query.needle.len() > 0,
        forall|k: int|
            0 <= k < files.len() ==> (#[trigger] files[k]) < entries.len()
                && !entries[files[k] as int].1,
    ensures
        within_limits(files_scanned(query, entries, contents, files, n)),
        forall|k: int|
            0 <= k < files_scanned(query, entries, contents, files, n).matches.len()
                ==> is_in_a_file(
                query,
                entries,
                contents,
                #[trigger] files_scanned(query, entries, contents, files, n).matches[k],
            ),
    decreases n,
{
    if n > 0 {
        scanned_so_far(query, entries, contents, files, n - 1);
        let before = files_scanned(query, entries, contents, files, n - 1);
        let scan = facing_file(before);
        let next = files_scanned(query, entries, contents, files, n);
        let f = files[n - 1] as int;
        assert(files[n - 1] < entries.len());
        if !scan.done && contents[f] is Some {
            let content = contents[f]->0;
            one_file_more(scan, query, entries[f], content);
            assert forall|k: int| 0 <= k < next.matches.len() implies is_in_a_file(
                query,
                entries,
                contents,
                #[trigger] next.matches[k],
            ) by {
                let m = scan.matches.len() as int;
                if k < m {
                    assert(next.matches.subrange(0, m)[k] == before.matches[k]);
                    assert(is_in_a_file(query, entries, contents, before.matches[k]));
                } else {
                    let at = choose|at: int| #[trigger]
                        match_of_file(query, entries[f], Some(content), at, next.matches[k]);
                    assert(match_of_file(query, entries[f], contents[f], at, next.matches[k]));
                }
            }
        }
    }
}

/// Every match of a search tells of a place in the contents of one of the files where the needle is
/// found, and there are no more than a thousand.
pub proof fn every_match_is_in_a_file(
    query: QueryView,
    entries: Seq<(Seq<char>, bool)>,
    contents: Seq<Option<Seq<u8>>>,
    k: int,
)
    requires
        contents.len() == entries.len() <= usize::MAX,
        query.needle.len() > 0,
        0 <= k < found_by(query, entries, contents).matches.len(),
    ensures
        found_by(query, entries, contents).matches.len() <= 1000,
        is_in_a_file(query, entries, contents, found_by(query, entries, contents).matches[k]),
{
    let hit = entries_hit(query, entries);
    let files = paths_among(entries, hit, entries.len() as int).files;
    scanned_files_are_files(entries, hit, entries.len() as int);
    scanned_so_far(query, entries, contents, files, files.len() as int);
    let scan = files_scanned(query, entries, contents, files, files.len() as int);
    assert(scan.matches[k] == found_by(query, entries, contents).matches[k]);
}

proof fn stays_covered(
    query: QueryView,
    entry: (Seq<char>, bool),
    content: Option<Seq<u8>>,
    at: int,
    before: Seq<SearchMatchView>,
    after: Seq<SearchMatchView>,
)
    requires
        is_covered(query, entry, content, at, before),
        after.len() >= before.len(),
        after.subrange(0, before.len() as int) == before,
    ensures
        is_covered(query, entry, content, at, after),
{
    let (k, place) = choose|k: int, place: int|
        0 <= k < before.len() && place <= at < place + query.needle.len()
            && #[trigger] match_of_file(query, entry, content, place, before[k]);
    assert(after.subrange(0, before.len() as int)[k] == after[k]);
    assert(match_of_file(query, entry, content, place, after[k]));
}

#[verifier::rlimit(40)]
proof fn nothing_missed_so_far(
    query: QueryView,
    entries: Seq<(Seq<char>, bool)>,
    contents: Seq<Option<Seq<u8>>>,
    files: Seq<usize>,
    n: int,
    j: int,
    at: int,
)
    requires
        0 <= j < n <= files.len(),
        contents.len() == entries.len(),
        query.needle.len() > 0,
        forall|k: int|
            0 <= k < files.len() ==> (#[trigger] files[k]) < entries.len()
                && !entries[files[k] as int].1,
        !files_scanned(query, entries, contents, files, n).truncated,
        contents[files[j] as int] is Some,
        searchable(contents[files[j] as int]->0),
        found_at(
            read_as(query.case_sensitive, utf8_lossy(contents[files[j] as int]->0)),
            query.needle,
            query.whole_word,
            at,
        ),
    ensures
        is_covered(
            query,
            entries[files[j] as int],
            contents[files[j] as int],
            at,
            files_scanned(query, entries, contents, files, n).matches,
        ),
    decreases n,
{
    scanned_so_far(query, entries, contents, files, n - 1);
    let before = files_scanned(query, entries, contents, files, n - 1);
    let scan = facing_file(before);
    let next = files_scanned(query, entries, contents, files, n);
    let f = files[n - 1] as int;
    assert(files[n - 1] < entries.len());
    assert(!scan.done);
    assert(scan == before);
    if contents[f] is Some {
        one_file_more(scan, query, entries[f], contents[f]->0);
    } else {
        assert(next.matches.subrange(0, before.matches.len() as int) == before.matches);
    }
    if j < n - 1 {
        nothing_missed_so_far(query, entries, contents, files, n - 1, j, at);
        let e = files[j] as int;
        stays_covered(query, entries[e], contents[e], at, before.matches, next.matches);
    }
}

/// A search that was not cut off misses nothing: of every file that can be read and searched, every
/// place where the needle is found lies within one of which a match tells.
pub proof fn search_misses_nothing(
    query: QueryView,
    entries: Seq<(Seq<char>, bool)>,
    contents: Seq<Option<Seq<u8>>>,
    i: int,
    at: int,
)
    requires
        contents.len() == entries.len() <= usize::MAX,
        query.needle.len() > 0,
        !found_by(query, entries, contents).truncated,
        0 <= i < entries.len(),
        !entries[i].1,
        contents[i] is Some,
        searchable(contents[i]->0),
        found_at(
            read_as(query.case_sensitive, utf8_lossy(contents[i]->0)),
            query.needle,
            query.whole_word,
            at,
        ),
    ensures
        is_covered(
            query,
            entries[i],
            contents[i],
            at,
            found_by(query, entries, contents).matches,
        ),
{
    let hit = entries_hit(query, entries);
    let paths = paths_among(entries, hit, entries.len() as int);
    scanned_files_are_files(entries, hit, entries.len() as int);
    path_hits_are_complete(entries, hit, entries.len() as int);
    assert(!entries[i].1);
    assert(paths.files.contains(i as usize));
    let j = choose|j: int| 0 <= j < paths.files.len() && paths.files[j] == i as usize;
    nothing_missed_so_far(query, entries, contents, paths.files, paths.files.len() as int, j, at);
}

/// Whether the query's needle is found in the path of an entry.
pub open spec fn path_is_found(query: QueryView, path: Seq<char>) -> bool {
    exists|at: int| #[trigger]
        found_at(read_as(query.case_sensitive, path), query.needle, query.whole_word, at)
}

/// Whether `chosen` are the entries of which a search tells as hits in paths, in order: their paths
/// are found, there are no more than three hundred, and of the entries in front of `end` none whose
/// path is found is left out.
pub open spec fn paths_chosen(
    query: QueryView,
    entries: Seq<(Seq<char>, bool)>,
    end: int,
    chosen: Seq<int>,
) -> bool {
    &&& chosen.len() <= 300
    &&& forall|k: int|
        0 <= k < chosen.len() ==> 0 <= #[trigger] chosen[k] < end && path_is_found(
            query,
            entries[chosen[k]].0,
        )
    &&& forall|k: int, l: int|
        0 <= k < l < chosen.len() ==> #[trigger] chosen[k] < #[trigger] chosen[l]
    &&& forall|i: int|
        0 <= i < end && path_is_found(query, (#[trigger] entries[i]).0) ==> chosen.contains(i)
}

/// Whether hits in paths tell of the entries chosen, one for one: each with its path, and whether it
/// is a directory.
pub open spec fn paths_told(
    entries: Seq<(Seq<char>, bool)>,
    chosen: Seq<int>,
    paths: Seq<PathHitView>,
) -> bool {
    &&& paths.len() == chosen.len()
    &&& forall|k: int|
        0 <= k < paths.len() ==> (#[trigger] paths[k]).path == entries[chosen[k]].0 && (
        entries[chosen[k]].1 ==> paths[k].kind == "dir"@) && (!entries[chosen[k]].1
            ==> paths[k].kind == "file"@)
}

proof fn entry_is_hit(query: QueryView, entries: Seq<(Seq<char>, bool)>, i: int)
    requires
        0 <= i < entries.len(),
    ensures
        entries_hit(query, entries)[i] == path_is_found(query, entries[i].0),
{
    let hay = read_as(query.case_sensitive, entries[i].0);
    let words = words_of(hay);
    assert(hay == folded(query.case_sensitive, entries[i].0));
    if hit_anywhere(hay, query.needle, words, query.whole_word) {
        let at = choose|at: int| #[trigger] hit_at(hay, query.needle, words, query.whole_word, at);
        assert(found_at(hay, query.needle, query.whole_word, at));
    }
    if path_is_found(query, entries[i].0) {
        let at = choose|at: int| #[trigger] found_at(hay, query.needle, query.whole_word, at);
        assert(hit_at(hay, query.needle, words, query.whole_word, at));
    }
}

#[verifier::rlimit(40)]
proof fn paths_so_far(query: QueryView, entries: Seq<(Seq<char>, bool)>, n: int) -> (chosen: Seq<
    int,
>)
    requires
        0 <= n <= entries.len(),
    ensures
        ({
            let scan = paths_among(entries, entries_hit(query, entries), n);
            &&& paths_told(entries, chosen, scan.paths)
            &&& !scan.truncated ==> paths_chosen(query, entries, n, chosen)
            &&& scan.truncated ==> chosen.len() == 300 && exists|end: int|
                0 <= end < n && path_is_found(query, (#[trigger] entries[end]).0) && paths_chosen(
                    query,
                    entries,
                    end,
                    chosen,
                )
        }),
    decreases n,
{
    let hit = entries_hit(query, entries);
    if n == 0 {
        seq![]
    } else {
        let chosen = paths_so_far(query, entries, n - 1);
        let before = paths_among(entries, hit, n - 1);
        entry_is_hit(query, entries, n - 1);
        if before.truncated {
            chosen
        } else if hit[n - 1] && before.paths.len() >= SEARCH_MAX_PATHS {
            assert(path_is_found(query, entries[n - 1].0));
            chosen
        } else if hit[n - 1] {
            let more = chosen.push(n - 1);
            assert forall|i: int|
                0 <= i < n && path_is_found(query, (#[trigger] entries[i]).0) implies more.contains(
                i,
            ) by {
                if i < n - 1 {
                    let k = choose|k: int| 0 <= k < chosen.len() && chosen[k] == i;
                    assert(more[k] == i);
                } else {
                    assert(more[chosen.len() as int] == i);
                }
            }
            more
        } else {
            chosen
        }
    }
}

/// A search tells of every entry whose path holds the needle, in the order of the walk, as a whole
/// word where whole words are sought. It stops at the three hundred and first, and then counts as cut
/// off.
pub proof fn paths_are_told(
    query: QueryView,
    entries: Seq<(Seq<char>, bool)>,
    contents: Seq<Option<Seq<u8>>>,
)
    ensures
        exists|end: int, chosen: Seq<int>|
            0 <= end <= entries.len() && #[trigger] paths_chosen(query, entries, end, chosen)
                && paths_told(entries, chosen, found_by(query, entries, contents).paths) && (end
                < entries.len() ==> chosen.len() == 300 && path_is_found(query, entries[end].0)
                && found_by(query, entries, contents).truncated),
{
    let chosen = paths_so_far(query, entries, entries.len() as int);
    let scan = paths_among(entries, entries_hit(query, entries), entries.len() as int);
    if scan.truncated {
        let end = choose|end: int|
            0 <= end < entries.len() && path_is_found(query, (#[trigger] entries[end]).0)
                && paths_chosen(query, entries, end, chosen);
        assert(paths_chosen(query, entries, end, chosen));
    } else {
        assert(paths_chosen(query, entries, entries.len() as int, chosen));
    }
}

/// A query seeks its text as it stands where case matters, else in lower case, and asks for whole
/// words where it was told to.
pub proof fn query_seeks_its_text(text: Seq<char>, case_sensitive: bool, whole_word: bool)
    ensures
        query_for(text, true, whole_word).needle == text,
        query_for(text, false, whole_word).needle == lowercase(text),
        query_for(text, case_sensitive, whole_word).case_sensitive == case_sensitive,
        query_for(text, case_sensitive, whole_word).whole_word == whole_word,
{
}

/// A search asks for the files of its walk one after the other, and leaves off only where all were
/// asked for, or where there is no room for a match or no file may be searched any more.
pub proof fn files_are_asked_for_in_turn(search: SearchView)
    requires
        within_limits(search.scan),
        0 <= search.asked <= search.paths.files.len(),
    ensures
        search.asked == search.paths.files.len() ==> file_asked(search) == (search, None::<usize>),
        search.asked < search.paths.files.len() && !search.scan.done && search.scan.matches.len()
            < 1000 ==> file_asked(search) == (
            SearchView { asked: search.asked + 1, ..search },
            Some(search.paths.files[search.asked]),
        ),
        search.asked < search.paths.files.len() && !search.scan.done && search.scan.matches.len()
            == 1000 ==> file_asked(search) == (
            SearchView {
                scan: ContentScanView { truncated: true, done: true, ..search.scan },
                ..search
            },
            None::<usize>,
        ),
        search.asked < search.paths.files.len() && search.scan.done ==> file_asked(search) == (
            search,
            None::<usize>,
        ),
{
}

/// What a file holds is searched under the path of its entry; a file that could not be read changes
/// nothing.
pub proof fn content_belongs_to_its_entry(search: SearchView, at: int, bytes: Seq<u8>)
    ensures
        content_taken(search, at, None) == search,
        content_taken(search, at, Some(bytes)) == (SearchView {
            scan: file_scanned(search.scan, search.query, search.entries[at].0, bytes),
            ..search
        }),
{
}

/// The files whose contents are searched stand in the order of the walk.
pub proof fn files_follow_the_walk(entries: Seq<(Seq<char>, bool)>, hit: Seq<bool>, n: int)
    requires
        n <= entries.len() <= usize::MAX,
    ensures
        forall|k: int, l: int|
            0 <= k < l < paths_among(entries, hit, n).files.len() ==> #[trigger] paths_among(
                entries,
                hit,
                n,
            ).files[k] < #[trigger] paths_among(entries, hit, n).files[l],
    decreases n,
{
    if n > 0 {
        files_follow_the_walk(entries, hit, n - 1);
        scanned_files_are_files(entries, hit, n - 1);
        let before = paths_among(entries, hit, n - 1).files;
        let files = paths_among(entries, hit, n).files;
        assert forall|k: int, l: int| 0 <= k < l < files.len() implies #[trigger] files[k]
            < #[trigger] files[l] by {
            assert(files[k] == before[k]);
            if l < before.len() {
                assert(files[l] == before[l]);
            }
        }
    }
}

/// A search is cut off exactly where its paths or its contents were, and tells what both found.
pub proof fn outcome_tells_both_scans(paths: PathScanView, contents: ContentScanView)
    ensures
        outcome_of(paths, contents).matches == contents.matches,
        outcome_of(paths, contents).paths == paths.paths,
        outcome_of(paths, contents).truncated == (paths.truncated || contents.truncated),
{
}

/// Whether each match tells of a place in the file that `from` names for it, in the order of `files`.
pub open spec fn in_file_order(
    query: QueryView,
    entries: Seq<(Seq<char>, bool)>,
    contents: Seq<Option<Seq<u8>>>,
    files: Seq<usize>,
    n: int,
    from: Seq<int>,
    matches: Seq<SearchMatchView>,
) -> bool {
    &&& from.len() == matches.len()
    &&& forall|k: int| 0 <= k < from.len() ==> 0 <= #[trigger] from[k] < n
    &&& forall|k: int, l: int| 0 <= k < l < from.len() ==> #[trigger] from[k] <= #[trigger] from[l]
    &&& forall|k: int|
        0 <= k < from.len() ==> tells_of_entry(
            query,
            entries[files[from[k]] as int],
            contents[files[from[k]] as int],
            #[trigger] matches[k],
        )
}

/// The matches of a search stand in the order of the files, and so in the order of the walk.
#[verifier::rlimit(40)]
pub proof fn matches_follow_the_walk(
    query: QueryView,
    entries: Seq<(Seq<char>, bool)>,
    contents: Seq<Option<Seq<u8>>>,
    files: Seq<usize>,
    n: int,
)
    requires
        0 <= n <= files.len(),
        contents.len() == entries.len(),
        query.needle.len() > 0,
        forall|k: int|
            0 <= k < files.len() ==> (#[trigger] files[k]) < entries.len()
                && !entries[files[k] as int].1,
    ensures
        exists|from: Seq<int>| #[trigger]
            in_file_order(
                query,
                entries,
                contents,
                files,
                n,
                from,
                files_scanned(query, entries, contents, files, n).matches,
            ),
    decreases n,
{
    let next = files_scanned(query, entries, contents, files, n);
    if n == 0 {
        let from = Seq::<int>::empty();
        assert(in_file_order(query, entries, contents, files, n, from, next.matches));
    } else {
        matches_follow_the_walk(query, entries, contents, files, n - 1);
        scanned_so_far(query, entries, contents, files, n - 1);
        let before = files_scanned(query, entries, contents, files, n - 1);
        let from = choose|from: Seq<int>| #[trigger]
            in_file_order(query, entries, contents, files, n - 1, from, before.matches);
        let scan = facing_file(before);
        let f = files[n - 1] as int;
        assert(files[n - 1] < entries.len());
        if !scan.done && contents[f] is Some {
            let content = contents[f]->0;
            one_file_more(scan, query, entries[f], content);
            let m = scan.matches.len() as int;
            let all = Seq::new(next.matches.len(), |k: int| if k < m {
                from[k]
            } else {
                n - 1
            });
            assert(all.len() == next.matches.len());
            assert forall|k: int| 0 <= k < all.len() implies tells_of_entry(
                query,
                entries[files[all[k]] as int],
                contents[files[all[k]] as int],
                #[trigger] next.matches[k],
            ) by {
                if k < m {
                    assert(next.matches.subrange(0, m)[k] == before.matches[k]);
                    assert(all[k] == from[k]);
                } else {
                    assert(tells_of_entry(query, entries[f], Some(content), next.matches[k]));
                    assert(all[k] == n - 1);
                }
            }
            assert forall|k: int| 0 <= k < all.len() implies 0 <= #[trigger] all[k] < n by {
                if k < m {
                    assert(all[k] == from[k]);
                }
            }
            assert forall|k: int, l: int| 0 <= k < l < all.len() implies #[trigger] all[k]
                <= #[trigger] all[l] by {
                if k < m {
                    assert(all[k] == from[k]);
                }
                if l < m {
                    assert(all[l] == from[l]);
                }
            }
            assert(in_file_order(query, entries, contents, files, n, all, next.matches));
        } else {
            assert(next.matches == before.matches);
            assert(in_file_order(query, entries, contents, files, n, from, next.matches));
        }
    }
}

/// The files are searched one after the other: each adds what its contents bring to what was found
/// before. A file that could not be read changes nothing, nor does any once the search has ended; the
/// search ends in front of a file where a thousand matches were found.
pub proof fn files_are_searched_in_turn(
    query: QueryView,
    entries: Seq<(Seq<char>, bool)>,
    contents: Seq<Option<Seq<u8>>>,
    files: Seq<usize>,
    file: usize,
)
    ensures
        files_scanned(query, entries, contents, seq![], 0) == (ContentScanView {
            matches: seq![],
            files_scanned: 0,
            truncated: false,
            done: false,
        }),
        ({
            let scan = files_scanned(query, entries, contents, files, files.len() as int);
            let next = files_scanned(
                query,
                entries,
                contents,
                files.push(file),
                files.len() as int + 1,
            );
            let full = scan.matches.len() >= 1000;
            &&& scan.done ==> next == scan
            &&& !scan.done && full ==> next == (ContentScanView {
                truncated: true,
                done: true,
                ..scan
            })
            &&& !scan.done && !full && contents[file as int] is None ==> next == scan
            &&& !scan.done && !full && contents[file as int] is Some ==> next == file_scanned(
                scan,
                query,
                entries[file as int].0,
                contents[file as int]->0,
            )
        }),
{
    let more = files.push(file);
    same_files_scanned(query, entries, contents, more, files, files.len() as int);
    assert(more[files.len() as int] == file);
}

proof fn same_files_scanned(
    query: QueryView,
    entries: Seq<(Seq<char>, bool)>,
    contents: Seq<Option<Seq<u8>>>,
    a: Seq<usize>,
    b: Seq<usize>,
    n: int,
)
    requires
        n <= a.len(),
        n <= b.len(),
        forall|i: int| 0 <= i < n ==> #[trigger] a[i] == b[i],
    ensures
        files_scanned(query, entries, contents, a, n) == files_scanned(
            query,
            entries,
            contents,
            b,
            n,
        ),
    decreases n,
{
    if n > 0 {
        same_files_scanned(query, entries, contents, a, b, n - 1);
        assert(a[n - 1] == b[n - 1]);
    }
}

/// A search for nothing finds nothing.
pub proof fn nothing_is_found_for_nothing(
    entries: Vec<(String, bool)>,
    contents: &Vec<Option<Vec<u8>>>,
    text: &str,
    case_sensitive: bool,
    whole_word: bool,
    outcome: SearchOutcome,
)
    requires
        call_ensures(
            search_in_dir,
            (entries, contents, text, case_sensitive, whole_word),
            outcome,
        ),
        text@.len() == 0,
    ensures
        outcome.matches@.len() == 0,
        outcome.paths@.len() == 0,
        !outcome.truncated,
{
    let view = outcome.deep_view();
    assert(view.matches.len() == 0 && view.paths.len() == 0);
}

} // verus!
