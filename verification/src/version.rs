//! Version numbers of the kernel: a light-weight semantic version order.
use crate::number::{decimal, decimal_reads_back, is_digit, parse_unsigned, unsigned_number};
use crate::text::{chars_of, copy_range, has_prefix, joined, joined_splits_back, lacks, pieces, position, position_is_the_first, position_of, split, split_at_separator, split_joins_back, split_of_one_part, split_on, trim, trim_end, trim_end_behind, trimmed, trimmed_is_the_middle, trimmed_stays, white};
use std::cmp::Ordering;
use vstd::prelude::*;

verus! {

/// A version: three numbers and the identifiers of a pre-release, none for a release.
pub struct VersionView {
    pub major: nat,
    pub minor: nat,
    pub patch: nat,
    pub ids: Seq<Seq<char>>,
}

/// The number that a part of a version writes.
pub open spec fn number_of(part: Seq<char>) -> Option<nat> {
    unsigned_number(part, u64::MAX as nat)
}

/// The text of a version without white space around it and without one leading `v`.
pub open spec fn bare_version(v: Seq<char>) -> Seq<char> {
    let t = trimmed(v);
    if t.len() > 0 && t[0] == 'v' {
        t.subrange(1, t.len() as int)
    } else {
        t
    }
}

/// The version that `v` writes: `major.minor.patch`, and behind a hyphen the identifiers of a
/// pre-release with dots between them. Anything else is no version.
pub open spec fn version_of(v: Seq<char>) -> Option<VersionView> {
    let t = bare_version(v);
    let hyphen = position(t, '-');
    let parts = split(t.subrange(0, hyphen), '.');
    let ids = if hyphen < t.len() {
        split(t.subrange(hyphen + 1, t.len() as int), '.')
    } else {
        seq![]
    };
    if parts.len() == 3 && number_of(parts[0]) is Some && number_of(parts[1]) is Some && number_of(
        parts[2],
    ) is Some {
        Some(
            VersionView {
                major: number_of(parts[0])->0,
                minor: number_of(parts[1])->0,
                patch: number_of(parts[2])->0,
                ids,
            },
        )
    } else {
        None
    }
}

/// A version as it is held in memory.
struct Version {
    major: u64,
    minor: u64,
    patch: u64,
    ids: Vec<Vec<char>>,
}

impl Version {
    spec fn view(&self) -> VersionView {
        VersionView {
            major: self.major as nat,
            minor: self.minor as nat,
            patch: self.patch as nat,
            ids: pieces(self.ids@),
        }
    }
}

fn parse(v: &str) -> (version: Option<Version>)
    ensures
        version_of(v@) == (match version {
            Some(found) => Some(found.view()),
            None => None,
        }),
{
    let t = trim(&chars_of(v));
    let t = if t.len() > 0 && t[0] == 'v' {
        copy_range(&t, 1, t.len())
    } else {
        t
    };
    let hyphen: usize = position_of(&t, '-');
    let parts = split_on(&copy_range(&t, 0, hyphen), '.');
    let ids = if hyphen < t.len() {
        split_on(&copy_range(&t, hyphen + 1, t.len()), '.')
    } else {
        Vec::new()
    };
    assert(hyphen >= t@.len() ==> pieces(ids@) =~= seq![]);
    if parts.len() != 3 {
        assert(pieces(parts@).len() != 3);
        return None;
    }
    assert(pieces(parts@)[0] == parts@[0]@);
    assert(pieces(parts@)[1] == parts@[1]@);
    assert(pieces(parts@)[2] == parts@[2]@);
    let major = parse_unsigned(&parts[0], u64::MAX);
    let minor = parse_unsigned(&parts[1], u64::MAX);
    let patch = parse_unsigned(&parts[2], u64::MAX);
    match (major, minor, patch) {
        (Some(major), Some(minor), Some(patch)) => Some(Version { major, minor, patch, ids }),
        _ => None,
    }
}

/// The code point of a character.
pub open spec fn code(c: char) -> nat {
    c as u32 as nat
}

fn code_of(c: char) -> (u: u32)
    ensures
        u == code(c),
{
    c as u32
}

/// The order of two numbers.
pub open spec fn number_order(a: nat, b: nat) -> Ordering {
    if a < b {
        Ordering::Less
    } else if a == b {
        Ordering::Equal
    } else {
        Ordering::Greater
    }
}

/// The first order decides, unless it finds no difference.
pub open spec fn first_then(first: Ordering, second: Ordering) -> Ordering {
    if first == Ordering::Equal {
        second
    } else {
        first
    }
}

/// The opposite order.
pub open spec fn reversed(order: Ordering) -> Ordering {
    match order {
        Ordering::Less => Ordering::Greater,
        Ordering::Equal => Ordering::Equal,
        Ordering::Greater => Ordering::Less,
    }
}

/// Texts are ordered by their first different code point; a prefix comes first.
pub open spec fn text_order(a: Seq<char>, b: Seq<char>) -> Ordering
    decreases a.len(),
{
    if a.len() == 0 || b.len() == 0 {
        number_order(a.len(), b.len())
    } else {
        first_then(
            number_order(code(a[0]), code(b[0])),
            text_order(a.drop_first(), b.drop_first()),
        )
    }
}

/// Two identifiers of a pre-release: numbers by value and before words, words as texts.
pub open spec fn id_order(a: Seq<char>, b: Seq<char>) -> Ordering {
    match (number_of(a), number_of(b)) {
        (Some(m), Some(n)) => number_order(m, n),
        (Some(_), None) => Ordering::Less,
        (None, Some(_)) => Ordering::Greater,
        (None, None) => text_order(a, b),
    }
}

/// Lists of identifiers are ordered by their first different entry; a prefix comes first.
pub open spec fn list_order(x: Seq<Seq<char>>, y: Seq<Seq<char>>) -> Ordering
    decreases x.len(),
{
    if x.len() == 0 || y.len() == 0 {
        number_order(x.len(), y.len())
    } else {
        first_then(id_order(x[0], y[0]), list_order(x.drop_first(), y.drop_first()))
    }
}

/// A pre-release comes before the release with the same numbers.
pub open spec fn ids_order(x: Seq<Seq<char>>, y: Seq<Seq<char>>) -> Ordering {
    if x.len() == 0 && y.len() == 0 {
        Ordering::Equal
    } else if x.len() == 0 {
        Ordering::Greater
    } else if y.len() == 0 {
        Ordering::Less
    } else {
        list_order(x, y)
    }
}

/// The order of two versions.
pub open spec fn version_order(a: VersionView, b: VersionView) -> Ordering {
    first_then(
        number_order(a.major, b.major),
        first_then(
            number_order(a.minor, b.minor),
            first_then(number_order(a.patch, b.patch), ids_order(a.ids, b.ids)),
        ),
    )
}

/// The order of two texts as versions. A text that is no version equals every other.
pub open spec fn versions_order(a: Seq<char>, b: Seq<char>) -> Ordering {
    match (version_of(a), version_of(b)) {
        (Some(x), Some(y)) => version_order(x, y),
        _ => Ordering::Equal,
    }
}

/// `n` as a natural number.
pub open spec fn natural(n: u64) -> nat {
    n as nat
}

fn widen(n: usize) -> (w: u64)
    ensures
        w == n,
{
    n as u64
}

fn order_numbers(a: u64, b: u64) -> (order: Ordering)
    ensures
        order == number_order(natural(a), natural(b)),
{
    if a < b {
        Ordering::Less
    } else if a == b {
        Ordering::Equal
    } else {
        Ordering::Greater
    }
}

pub(crate) fn order_texts(a: &Vec<char>, b: &Vec<char>) -> (order: Ordering)
    ensures
        order == text_order(a@, b@),
{
    let mut i: usize = 0;
    let ghost mut k: int = 0;
    assert(a@.skip(0) == a@);
    assert(b@.skip(0) == b@);
    while i < a.len() && i < b.len()
        invariant
            k == i,
            i <= a@.len(),
            i <= b@.len(),
            text_order(a@, b@) == text_order(a@.skip(k), b@.skip(k)),
        decreases a@.len() - i,
    {
        let x: u32 = code_of(a[i]);
        let y: u32 = code_of(b[i]);
        assert(a@.skip(k).drop_first() == a@.skip(k + 1));
        assert(b@.skip(k).drop_first() == b@.skip(k + 1));
        if x < y {
            return Ordering::Less;
        }
        if x > y {
            return Ordering::Greater;
        }
        i = i + 1;
        proof {
            k = k + 1;
        }
    }
    order_numbers(widen(a.len() - i), widen(b.len() - i))
}

fn order_ids(a: &Vec<char>, b: &Vec<char>) -> (order: Ordering)
    ensures
        order == id_order(a@, b@),
{
    match (parse_unsigned(a, u64::MAX), parse_unsigned(b, u64::MAX)) {
        (Some(m), Some(n)) => order_numbers(m, n),
        (Some(_), None) => Ordering::Less,
        (None, Some(_)) => Ordering::Greater,
        (None, None) => order_texts(a, b),
    }
}

fn order_lists(x: &Vec<Vec<char>>, y: &Vec<Vec<char>>) -> (order: Ordering)
    ensures
        order == ids_order(pieces(x@), pieces(y@)),
{
    let ghost xs = pieces(x@);
    let ghost ys = pieces(y@);
    if x.len() == 0 && y.len() == 0 {
        return Ordering::Equal;
    }
    if x.len() == 0 {
        return Ordering::Greater;
    }
    if y.len() == 0 {
        return Ordering::Less;
    }
    let mut i: usize = 0;
    let ghost mut k: int = 0;
    assert(xs.skip(0) == xs);
    assert(ys.skip(0) == ys);
    while i < x.len() && i < y.len()
        invariant
            k == i,
            i <= x@.len(),
            i <= y@.len(),
            xs == pieces(x@),
            ys == pieces(y@),
            list_order(xs, ys) == list_order(xs.skip(k), ys.skip(k)),
        decreases x@.len() - i,
    {
        let order = order_ids(&x[i], &y[i]);
        assert(xs.skip(k)[0] == x@[k]@);
        assert(ys.skip(k)[0] == y@[k]@);
        assert(xs.skip(k).drop_first() == xs.skip(k + 1));
        assert(ys.skip(k).drop_first() == ys.skip(k + 1));
        match order {
            Ordering::Equal => {},
            _ => {
                return order;
            },
        }
        i = i + 1;
        proof {
            k = k + 1;
        }
    }
    order_numbers(widen(x.len() - i), widen(y.len() - i))
}

/// The order of `a` and `b` as versions: number by number; a pre-release before its release; the
/// identifiers of a pre-release one by one, numbers by value and before words. A leading `v` and
/// white space around a version do not count. A text that is no version equals every other.
pub fn compare_versions(a: &str, b: &str) -> (order: Ordering)
    ensures
        order == versions_order(a@, b@),
{
    match (parse(a), parse(b)) {
        (Some(x), Some(y)) => {
            match order_numbers(x.major, y.major) {
                Ordering::Equal => match order_numbers(x.minor, y.minor) {
                    Ordering::Equal => match order_numbers(x.patch, y.patch) {
                        Ordering::Equal => order_lists(&x.ids, &y.ids),
                        order => order,
                    },
                    order => order,
                },
                order => order,
            }
        },
        _ => Ordering::Equal,
    }
}

// ---------------------------------------------------------------------------
// Laws
// ---------------------------------------------------------------------------

/// Where `order` is the order of `a` and `b`, and `next` that of `b` and `c`, an order of `a` and
/// `c` that chains them.
pub open spec fn chains(order: Ordering, next: Ordering, across: Ordering) -> bool {
    order != Ordering::Greater && next != Ordering::Greater ==> {
        &&& across != Ordering::Greater
        &&& (order == Ordering::Less || next == Ordering::Less) ==> across == Ordering::Less
    }
}

/// The order of texts the other way round.
pub proof fn text_order_reversed(a: Seq<char>, b: Seq<char>)
    ensures
        text_order(b, a) == reversed(text_order(a, b)),
    decreases a.len(),
{
    if a.len() > 0 && b.len() > 0 {
        text_order_reversed(a.drop_first(), b.drop_first());
    }
}

/// The order of texts chains.
pub proof fn text_order_chains(a: Seq<char>, b: Seq<char>, c: Seq<char>)
    ensures
        chains(text_order(a, b), text_order(b, c), text_order(a, c)),
    decreases a.len(),
{
    if a.len() > 0 && b.len() > 0 && c.len() > 0 {
        text_order_chains(a.drop_first(), b.drop_first(), c.drop_first());
    }
}

proof fn id_order_reversed(a: Seq<char>, b: Seq<char>)
    ensures
        id_order(b, a) == reversed(id_order(a, b)),
{
    text_order_reversed(a, b);
}

proof fn id_order_chains(a: Seq<char>, b: Seq<char>, c: Seq<char>)
    ensures
        chains(id_order(a, b), id_order(b, c), id_order(a, c)),
{
    text_order_chains(a, b, c);
}

proof fn list_order_reversed(x: Seq<Seq<char>>, y: Seq<Seq<char>>)
    ensures
        list_order(y, x) == reversed(list_order(x, y)),
    decreases x.len(),
{
    if x.len() > 0 && y.len() > 0 {
        id_order_reversed(x[0], y[0]);
        list_order_reversed(x.drop_first(), y.drop_first());
    }
}

proof fn list_order_chains(x: Seq<Seq<char>>, y: Seq<Seq<char>>, z: Seq<Seq<char>>)
    ensures
        chains(list_order(x, y), list_order(y, z), list_order(x, z)),
    decreases x.len(),
{
    if x.len() > 0 && y.len() > 0 && z.len() > 0 {
        id_order_chains(x[0], y[0], z[0]);
        id_order_chains(z[0], y[0], x[0]);
        id_order_reversed(x[0], y[0]);
        id_order_reversed(y[0], z[0]);
        id_order_reversed(x[0], z[0]);
        list_order_chains(x.drop_first(), y.drop_first(), z.drop_first());
    }
}

proof fn version_order_reversed(a: VersionView, b: VersionView)
    ensures
        version_order(b, a) == reversed(version_order(a, b)),
{
    list_order_reversed(a.ids, b.ids);
}

/// Swapping two versions turns their order round.
pub proof fn compare_versions_is_antisymmetric(a: Seq<char>, b: Seq<char>)
    ensures
        versions_order(b, a) == reversed(versions_order(a, b)),
{
    if version_of(a) is Some && version_of(b) is Some {
        version_order_reversed(version_of(a)->0, version_of(b)->0);
    }
}

/// A version equals itself.
pub proof fn compare_versions_is_reflexive(a: Seq<char>)
    ensures
        versions_order(a, a) == Ordering::Equal,
{
    compare_versions_is_antisymmetric(a, a);
}

/// Among texts that are versions the order is transitive: what is not newer than something not
/// newer than a third is not newer than the third, and older where one of the two steps is.
pub proof fn compare_versions_is_transitive(a: Seq<char>, b: Seq<char>, c: Seq<char>)
    requires
        version_of(a) is Some,
        version_of(b) is Some,
        version_of(c) is Some,
        versions_order(a, b) != Ordering::Greater,
        versions_order(b, c) != Ordering::Greater,
    ensures
        versions_order(a, c) != Ordering::Greater,
        versions_order(a, b) == Ordering::Less || versions_order(b, c) == Ordering::Less
            ==> versions_order(a, c) == Ordering::Less,
{
    list_order_chains((version_of(a)->0).ids, (version_of(b)->0).ids, (version_of(c)->0).ids);
}

/// A pre-release is older than the release with the same numbers.
pub proof fn prerelease_is_older(a: Seq<char>, b: Seq<char>)
    requires
        version_of(a) is Some,
        version_of(b) is Some,
        (version_of(a)->0).major == (version_of(b)->0).major,
        (version_of(a)->0).minor == (version_of(b)->0).minor,
        (version_of(a)->0).patch == (version_of(b)->0).patch,
        (version_of(a)->0).ids.len() > 0,
        (version_of(b)->0).ids.len() == 0,
    ensures
        versions_order(a, b) == Ordering::Less,
        versions_order(b, a) == Ordering::Greater,
{
}

/// A `v` in front of a version does not count.
pub proof fn leading_v_does_not_count(v: Seq<char>)
    requires
        v.len() > 0,
        !white(v[0]),
        v[0] != 'v',
    ensures
        version_of(seq!['v'] + v) == version_of(v),
{
    let marked = seq!['v'] + v;
    trim_end_behind(seq!['v'], v);
    trim_end_behind(seq![v[0]], v.subrange(1, v.len() as int));
    assert(seq![v[0]] + v.subrange(1, v.len() as int) == v);
    assert(marked[0] == 'v');
    assert(bare_version(marked) == bare_version(v));
}

/// The numbers decide, the major one first, then the minor one, then the patch, whatever the
/// identifiers are.
pub proof fn numbers_decide(a: Seq<char>, b: Seq<char>)
    requires
        version_of(a) is Some,
        version_of(b) is Some,
    ensures
        ({
            let x = version_of(a)->0;
            let y = version_of(b)->0;
            let newer = x.major > y.major || (x.major == y.major && (x.minor > y.minor || (x.minor
                == y.minor && x.patch > y.patch)));
            let older = x.major < y.major || (x.major == y.major && (x.minor < y.minor || (x.minor
                == y.minor && x.patch < y.patch)));
            &&& newer ==> versions_order(a, b) == Ordering::Greater
            &&& older ==> versions_order(a, b) == Ordering::Less
        }),
{
}

/// Where the numbers are the same, the first identifier that differs decides: two numbers by their
/// values, a number comes before a word, and two words by the first character that differs.
pub proof fn first_different_identifier_decides(
    a: Seq<char>,
    b: Seq<char>,
    same: Seq<Seq<char>>,
    i: Seq<char>,
    j: Seq<char>,
    x: Seq<Seq<char>>,
    y: Seq<Seq<char>>,
)
    requires
        version_of(a) is Some,
        version_of(b) is Some,
        (version_of(a)->0).major == (version_of(b)->0).major,
        (version_of(a)->0).minor == (version_of(b)->0).minor,
        (version_of(a)->0).patch == (version_of(b)->0).patch,
        (version_of(a)->0).ids == same + seq![i] + x,
        (version_of(b)->0).ids == same + seq![j] + y,
    ensures
        number_of(i) matches Some(m) ==> number_of(j) matches Some(n) ==> m < n ==> versions_order(
            a,
            b,
        ) == Ordering::Less,
        number_of(i) is Some && number_of(j) is None ==> versions_order(a, b) == Ordering::Less,
        number_of(i) is None && number_of(j) is None ==> forall|k: int|
            0 <= k < i.len() && 0 <= k < j.len() && i.subrange(0, k) == j.subrange(0, k) && code(
                #[trigger] i[k],
            ) < code(#[trigger] j[k]) ==> versions_order(a, b) == Ordering::Less,
        number_of(i) is None && number_of(j) is None && i.len() < j.len() && has_prefix(j, i)
            ==> versions_order(a, b) == Ordering::Less,
{
    let p = same + seq![i] + x;
    let q = same + seq![j] + y;
    skip_same_identifiers(same, seq![i] + x, seq![j] + y);
    assert(p == same + (seq![i] + x));
    assert(q == same + (seq![j] + y));
    let u = seq![i] + x;
    let v = seq![j] + y;
    assert(u[0] == i && v[0] == j);
    assert forall|k: int|
        0 <= k < i.len() && 0 <= k < j.len() && i.subrange(0, k) == j.subrange(0, k) && code(
            #[trigger] i[k],
        ) < code(#[trigger] j[k]) implies text_order(i, j) == Ordering::Less by {
        first_different_character_decides(i, j, k);
    }
    if i.len() < j.len() && has_prefix(j, i) {
        beginning_comes_first(i, j);
    }
}

/// What begins with the same identifiers and then ends is older.
pub proof fn fewer_identifiers_are_older(a: Seq<char>, b: Seq<char>, more: Seq<Seq<char>>)
    requires
        version_of(a) is Some,
        version_of(b) is Some,
        (version_of(a)->0).major == (version_of(b)->0).major,
        (version_of(a)->0).minor == (version_of(b)->0).minor,
        (version_of(a)->0).patch == (version_of(b)->0).patch,
        (version_of(a)->0).ids.len() > 0,
        more.len() > 0,
        (version_of(b)->0).ids == (version_of(a)->0).ids + more,
    ensures
        versions_order(a, b) == Ordering::Less,
{
    let same = (version_of(a)->0).ids;
    let none = Seq::<Seq<char>>::empty();
    skip_same_identifiers(same, none, more);
    assert(same + none == same);
}

proof fn skip_same_identifiers(same: Seq<Seq<char>>, x: Seq<Seq<char>>, y: Seq<Seq<char>>)
    ensures
        list_order(same + x, same + y) == list_order(x, y),
    decreases same.len(),
{
    if same.len() == 0 {
        assert(same + x == x);
        assert(same + y == y);
    } else {
        let p = same + x;
        let q = same + y;
        assert(p[0] == same[0] && q[0] == same[0]);
        assert(p.drop_first() == same.drop_first() + x);
        assert(q.drop_first() == same.drop_first() + y);
        id_order_reversed(same[0], same[0]);
        skip_same_identifiers(same.drop_first(), x, y);
    }
}

/// The first character that differs decides the order of two texts, by its code point.
pub proof fn first_different_character_decides(i: Seq<char>, j: Seq<char>, k: int)
    requires
        0 <= k < i.len(),
        k < j.len(),
        i.subrange(0, k) == j.subrange(0, k),
        code(i[k]) < code(j[k]),
    ensures
        text_order(i, j) == Ordering::Less,
    decreases k,
{
    if k > 0 {
        assert(i.subrange(0, k)[0] == i[0]);
        assert(j.subrange(0, k)[0] == j[0]);
        let p = i.drop_first();
        let q = j.drop_first();
        assert(p.subrange(0, k - 1) == i.subrange(0, k).drop_first());
        assert(q.subrange(0, k - 1) == j.subrange(0, k).drop_first());
        first_different_character_decides(p, q, k - 1);
    }
}

/// The beginning of a text comes before the text.
pub proof fn beginning_comes_first(i: Seq<char>, j: Seq<char>)
    requires
        i.len() < j.len(),
        has_prefix(j, i),
    ensures
        text_order(i, j) == Ordering::Less,
    decreases i.len(),
{
    if i.len() > 0 {
        let zero: int = 0;
        assert(j.subrange(zero, zero + i.len())[0] == j[0]);
        assert(j.drop_first().subrange(0, i.len() - 1) == i.drop_first());
        beginning_comes_first(i.drop_first(), j.drop_first());
    }
}

/// Texts of which one is no version are equal, so that neither replaces the other.
pub proof fn unreadable_versions_are_equal(a: Seq<char>, b: Seq<char>)
    requires
        version_of(a) is None || version_of(b) is None,
    ensures
        versions_order(a, b) == Ordering::Equal,
{
}

/// The three numbers of a version, as they are written.
pub open spec fn written(major: nat, minor: nat, patch: nat) -> Seq<char> {
    decimal(major) + seq!['.'] + decimal(minor) + seq!['.'] + decimal(patch)
}

/// A release reads back as it was written: its numbers, and no identifiers.
pub proof fn written_release_is_read(major: nat, minor: nat, patch: nat)
    requires
        major <= u64::MAX,
        minor <= u64::MAX,
        patch <= u64::MAX,
    ensures
        version_of(written(major, minor, patch)) == Some(
            VersionView { major, minor, patch, ids: seq![] },
        ),
{
    let core = written(major, minor, patch);
    core_is_read(major, minor, patch);
    trimmed_stays(core);
    position_without(core, '-');
    assert(core.subrange(0, core.len() as int) == core);
}

/// A pre-release reads back as it was written: its numbers, and behind the hyphen its identifiers
/// with dots between them.
pub proof fn written_prerelease_is_read(
    major: nat,
    minor: nat,
    patch: nat,
    ids: Seq<Seq<char>>,
)
    requires
        major <= u64::MAX,
        minor <= u64::MAX,
        patch <= u64::MAX,
        ids.len() > 0,
        forall|i: int| 0 <= i < ids.len() ==> lacks(#[trigger] ids[i], '.'),
        ids.last().len() > 0,
        !white(ids.last().last()),
    ensures
        version_of(written(major, minor, patch) + seq!['-'] + joined(ids, seq!['.'])) == Some(
            VersionView { major, minor, patch, ids },
        ),
{
    let core = written(major, minor, patch);
    let pre = joined(ids, seq!['.']);
    let text = core + seq!['-'] + pre;
    core_is_read(major, minor, patch);
    joined_splits_back(ids, '.');
    joined_ends_with_its_last(ids);
    assert(text.last() == ids.last().last());
    assert(text[0] == core[0]);
    trimmed_stays(text);
    position_before(core, pre, '-');
    assert(text.subrange(0, core.len() as int) == core);
    assert(text.subrange(core.len() as int + 1, text.len() as int) == pre);
}

proof fn joined_ends_with_its_last(ids: Seq<Seq<char>>)
    requires
        ids.len() > 0,
        ids.last().len() > 0,
    ensures
        joined(ids, seq!['.']).len() > 0,
        joined(ids, seq!['.']).last() == ids.last().last(),
{
}

proof fn position_without(s: Seq<char>, c: char)
    requires
        lacks(s, c),
    ensures
        position(s, c) == s.len(),
    decreases s.len(),
{
    if s.len() > 0 {
        let rest = s.subrange(1, s.len() as int);
        assert forall|i: int| 0 <= i < rest.len() implies #[trigger] rest[i] != c by {
            assert(rest[i] == s[i + 1]);
        }
        position_without(rest, c);
    }
}

proof fn position_before(s: Seq<char>, t: Seq<char>, c: char)
    requires
        lacks(s, c),
    ensures
        position(s + seq![c] + t, c) == s.len(),
    decreases s.len(),
{
    let all = s + seq![c] + t;
    if s.len() > 0 {
        let rest = s.subrange(1, s.len() as int);
        assert forall|i: int| 0 <= i < rest.len() implies #[trigger] rest[i] != c by {
            assert(rest[i] == s[i + 1]);
        }
        position_before(rest, t, c);
        assert(all.subrange(1, all.len() as int) == rest + seq![c] + t);
        assert(all[0] == s[0]);
    } else {
        assert(all[0] == c);
    }
}

proof fn number_is_read(n: nat)
    requires
        n <= u64::MAX,
    ensures
        number_of(decimal(n)) == Some(n),
        lacks(decimal(n), '.'),
        lacks(decimal(n), '-'),
        decimal(n).len() > 0,
        is_digit(decimal(n)[0]),
        is_digit(decimal(n).last()),
{
    decimal_reads_back(n, u64::MAX as nat);
    assert forall|i: int| 0 <= i < decimal(n).len() implies #[trigger] decimal(n)[i] != '.'
        && decimal(n)[i] != '-' by {
        assert(is_digit(decimal(n)[i]));
    }
    assert(is_digit(decimal(n)[0]));
}

#[verifier::rlimit(40)]
proof fn core_is_read(major: nat, minor: nat, patch: nat)
    requires
        major <= u64::MAX,
        minor <= u64::MAX,
        patch <= u64::MAX,
    ensures
        ({
            let core = written(major, minor, patch);
            let parts = split(core, '.');
            &&& core.len() > 0
            &&& is_digit(core[0])
            &&& is_digit(core.last())
            &&& lacks(core, '-')
            &&& parts.len() == 3
            &&& number_of(parts[0]) == Some(major)
            &&& number_of(parts[1]) == Some(minor)
            &&& number_of(parts[2]) == Some(patch)
        }),
{
    let core = written(major, minor, patch);
    let a = decimal(major);
    let b = decimal(minor);
    let c = decimal(patch);
    number_is_read(major);
    number_is_read(minor);
    number_is_read(patch);
    split_of_one_part(a, '.');
    split_of_one_part(b, '.');
    split_of_one_part(c, '.');
    split_at_separator(a, b, '.');
    split_at_separator(a + seq!['.'] + b, c, '.');
    assert(core == (a + seq!['.'] + b) + seq!['.'] + c);
    assert(split(core, '.') == seq![a, b, c]);
    assert forall|i: int| 0 <= i < core.len() implies #[trigger] core[i] != '-' by {
        let m = a.len() as int;
        let n = b.len() as int;
        if i < m {
            assert(core[i] == a[i]);
        } else if m < i < m + 1 + n {
            assert(core[i] == b[i - m - 1]);
        } else if i > m + 1 + n {
            assert(core[i] == c[i - m - n - 2]);
        }
    }
}

/// Versions with the same numbers and the same identifiers are equal.
pub proof fn same_versions_are_equal(a: Seq<char>, b: Seq<char>)
    requires
        version_of(a) is Some,
        version_of(a) == version_of(b),
    ensures
        versions_order(a, b) == Ordering::Equal,
{
    let none = Seq::<Seq<char>>::empty();
    let ids = (version_of(a)->0).ids;
    skip_same_identifiers(ids, none, none);
    assert(ids + none == ids);
}

/// What is not three numbers with dots between them, and a hyphen or nothing behind them, is no
/// version.
#[verifier::rlimit(40)]
pub proof fn other_texts_are_no_versions(parts: Seq<Seq<char>>, rest: Seq<char>)
    requires
        parts.len() > 0,
        forall|i: int| 0 <= i < parts.len() ==> lacks(#[trigger] parts[i], '.') && lacks(parts[i], '-'),
        parts.len() != 3 || (exists|i: int|
            0 <= i < parts.len() && number_of(#[trigger] parts[i]) is None),
        parts[0].len() > 0,
        !white(parts[0][0]),
        parts[0][0] != 'v',
        parts.last().len() > 0,
        !white(parts.last().last()),
        rest.len() > 0 ==> !white(rest.last()),
    ensures
        version_of(joined(parts, seq!['.'])) is None,
        version_of(joined(parts, seq!['.']) + seq!['-'] + rest) is None,
{
    let core = joined(parts, seq!['.']);
    joined_splits_back(parts, '.');
    joined_ends_with_its_last(parts);
    joined_begins_with_its_first(parts);
    joined_lacks(parts, '-');
    let text = core + seq!['-'] + rest;
    trimmed_stays(core);
    assert(text[0] == core[0]);
    if rest.len() > 0 {
        assert(text.last() == rest.last());
    } else {
        assert(text.last() == '-');
    }
    trimmed_stays(text);
    position_without(core, '-');
    position_before(core, rest, '-');
    assert(core.subrange(0, core.len() as int) == core);
    assert(text.subrange(0, core.len() as int) == core);
}

proof fn joined_begins_with_its_first(parts: Seq<Seq<char>>)
    requires
        parts.len() > 0,
        parts[0].len() > 0,
    ensures
        joined(parts, seq!['.']).len() > 0,
        joined(parts, seq!['.'])[0] == parts[0][0],
    decreases parts.len(),
{
    if parts.len() > 1 {
        let init = parts.subrange(0, parts.len() - 1);
        joined_begins_with_its_first(init);
    }
}

proof fn joined_lacks(parts: Seq<Seq<char>>, c: char)
    requires
        c != '.',
        forall|i: int| 0 <= i < parts.len() ==> lacks(#[trigger] parts[i], c),
    ensures
        lacks(joined(parts, seq!['.']), c),
    decreases parts.len(),
{
    if parts.len() == 1 {
        assert(lacks(parts[0], c));
    } else if parts.len() > 1 {
        let init = parts.subrange(0, parts.len() - 1);
        let last = parts[parts.len() - 1];
        assert forall|i: int| 0 <= i < init.len() implies lacks(#[trigger] init[i], c) by {
            assert(init[i] == parts[i]);
        }
        joined_lacks(init, c);
        let head = joined(init, seq!['.']);
        let all = joined(parts, seq!['.']);
        assert forall|i: int| 0 <= i < all.len() implies #[trigger] all[i] != c by {
            if i < head.len() {
                assert(all[i] == head[i]);
            } else if i > head.len() {
                assert(all[i] == last[i - head.len() - 1]);
            }
        }
    }
}

/// White space around a version does not count.
pub proof fn white_space_does_not_count(v: Seq<char>)
    ensures
        version_of(trimmed(v)) == version_of(v),
{
    trimmed_is_the_middle(v);
    trimmed_stays(trimmed(v));
}

/// One `v` in front is enough: with two there is no version.
#[verifier::rlimit(40)]
pub proof fn second_v_counts(rest: Seq<char>)
    ensures
        version_of(seq!['v', 'v'] + rest) is None,
{
    let text = seq!['v', 'v'] + rest;
    let head = seq!['v', 'v'];
    trim_end_behind(head, rest);
    assert(text[0] == 'v');
    let kept = head + trim_end(rest);
    assert(trimmed(text) == kept);
    let bare = bare_version(text);
    assert(bare[0] == 'v');
    position_is_the_first(bare, '-');
    let hyphen = position(bare, '-');
    let core = bare.subrange(0, hyphen);
    assert(core[0] == 'v');
    let parts = split(core, '.');
    split_joins_back(core, '.');
    if parts.len() == 3 {
        if parts[0].len() == 0 {
            joined_after_nothing(parts);
        } else {
            joined_begins_with_its_first(parts);
            let part = parts[0];
            assert(part[0] == 'v');
            assert(!is_digit(part[0]));
            assert(number_of(part) is None);
        }
    }
}

proof fn joined_after_nothing(parts: Seq<Seq<char>>)
    requires
        parts.len() > 1,
        parts[0].len() == 0,
    ensures
        joined(parts, seq!['.']).len() > 0,
        joined(parts, seq!['.'])[0] == '.',
    decreases parts.len(),
{
    let init = parts.subrange(0, parts.len() - 1);
    assert(init[0] == parts[0]);
    if parts.len() > 2 {
        joined_after_nothing(init);
    } else {
        assert(joined(init, seq!['.']) == Seq::<char>::empty());
    }
}

/// Two texts are in no order exactly where they are the same.
pub proof fn same_texts_are_in_no_order(a: Seq<char>, b: Seq<char>)
    ensures
        text_order(a, b) == Ordering::Equal <==> a == b,
    decreases a.len(),
{
    if a.len() > 0 && b.len() > 0 {
        same_texts_are_in_no_order(a.drop_first(), b.drop_first());
        assert(a == seq![a[0]] + a.drop_first());
        assert(b == seq![b[0]] + b.drop_first());
        same_code_same_character(a[0], b[0]);
    } else if a.len() == 0 && b.len() == 0 {
        assert(a == b);
    }
}

proof fn same_code_same_character(c: char, d: char)
    ensures
        code(c) == code(d) <==> c == d,
{
}

/// Three numbers with dots between them are a version, whatever way they are written in: alone a
/// release, and with a hyphen behind them a pre-release with the identifiers that follow.
pub proof fn three_numbers_are_a_version(parts: Seq<Seq<char>>, ids: Seq<Seq<char>>)
    requires
        parts.len() == 3,
        forall|i: int| 0 <= i < 3 ==> lacks(#[trigger] parts[i], '.') && lacks(parts[i], '-'),
        forall|i: int| 0 <= i < 3 ==> number_of(#[trigger] parts[i]) is Some,
        !white(parts[0][0]),
        parts[0][0] != 'v',
        !white(parts.last().last()),
        ids.len() > 0,
        forall|i: int| 0 <= i < ids.len() ==> lacks(#[trigger] ids[i], '.'),
        ids.last().len() > 0,
        !white(ids.last().last()),
    ensures
        ({
            let release = VersionView {
                major: number_of(parts[0])->0,
                minor: number_of(parts[1])->0,
                patch: number_of(parts[2])->0,
                ids: seq![],
            };
            let core = joined(parts, seq!['.']);
            &&& version_of(core) == Some(release)
            &&& version_of(core + seq!['-'] + joined(ids, seq!['.'])) == Some(
                VersionView { ids, ..release },
            )
        }),
{
    let core = joined(parts, seq!['.']);
    let pre = joined(ids, seq!['.']);
    let text = core + seq!['-'] + pre;
    assert(number_of(parts[0]) is Some && number_of(parts[1]) is Some && number_of(parts[2]) is Some);
    assert(parts[0].len() > 0 && parts[2].len() > 0);
    joined_splits_back(parts, '.');
    joined_splits_back(ids, '.');
    joined_ends_with_its_last(parts);
    joined_ends_with_its_last(ids);
    joined_begins_with_its_first(parts);
    joined_lacks(parts, '-');
    trimmed_stays(core);
    assert(text[0] == core[0] && text.last() == pre.last());
    trimmed_stays(text);
    position_without(core, '-');
    position_before(core, pre, '-');
    assert(core.subrange(0, core.len() as int) == core);
    assert(text.subrange(0, core.len() as int) == core);
    assert(text.subrange(core.len() as int + 1, text.len() as int) == pre);
}

} // verus!
