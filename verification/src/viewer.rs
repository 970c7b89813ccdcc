//! The file viewer: the script that opens a file in it.
use crate::number::{decimal, decimal_of};
use crate::text::string_of;
use vstd::prelude::*;
use vstd::utf8::encode_utf8;

verus! {

/// Whether a byte stands for itself in a query.
pub open spec fn query_safe(b: u8) -> bool {
    ||| 65 <= b <= 90
    ||| 97 <= b <= 122
    ||| 48 <= b <= 57
    ||| b == 45
    ||| b == 95
    ||| b == 46
    ||| b == 126
    ||| b == 47
}

fn is_query_safe(b: u8) -> (safe: bool)
    ensures
        safe == query_safe(b),
{
    (65 <= b && b <= 90) || (97 <= b && b <= 122) || (48 <= b && b <= 57) || b == 45 || b == 95 || b
        == 46 || b == 126 || b == 47
}

/// The hexadecimal digit for a number below 16, in upper case.
pub open spec fn hex_digit(n: int) -> char {
    if n < 10 {
        (48 + n) as char
    } else {
        (55 + n) as char
    }
}

fn hex_char(n: u8) -> (c: char)
    requires
        n < 16,
    ensures
        c == hex_digit(n as int),
{
    if n < 10 {
        (48 + n) as char
    } else {
        (55 + n) as char
    }
}

/// A byte in a query: itself where it is safe, else '%' and two hexadecimal digits.
pub open spec fn percent_byte(b: u8) -> Seq<char> {
    if query_safe(b) {
        seq![b as char]
    } else {
        seq!['%', hex_digit(b as int / 16), hex_digit(b as int % 16)]
    }
}

/// Bytes in a query, one after the other.
pub open spec fn percent_bytes(bytes: Seq<u8>) -> Seq<char>
    decreases bytes.len(),
{
    if bytes.len() == 0 {
        seq![]
    } else {
        percent_bytes(bytes.drop_last()) + percent_byte(bytes.last())
    }
}

/// A text in a query: the bytes of its UTF-8 form.
pub open spec fn percent_text(s: Seq<char>) -> Seq<char> {
    percent_bytes(encode_utf8(s))
}

fn push_byte(out: &mut Vec<char>, b: u8)
    ensures
        final(out)@ == old(out)@ + percent_byte(b),
{
    if is_query_safe(b) {
        out.push(b as char);
        assert(out@ == old(out)@ + percent_byte(b));
    } else {
        out.push('%');
        out.push(hex_char(b / 16));
        out.push(hex_char(b % 16));
        assert(out@ == old(out)@ + percent_byte(b));
    }
}

/// A text in a query.
pub fn percent_encode(s: &str) -> (text: String)
    ensures
        text@ == percent_text(s@),
{
    let bytes = s.as_bytes();
    let mut out: Vec<char> = Vec::new();
    let mut i: usize = 0;
    while i < bytes.len()
        invariant
            i <= bytes@.len(),
            out@ == percent_bytes(bytes@.subrange(0, i as int)),
        decreases bytes@.len() - i,
    {
        assert(bytes@.subrange(0, i + 1).drop_last() == bytes@.subrange(0, i as int));
        push_byte(&mut out, bytes[i]);
        i = i + 1;
    }
    assert(bytes@.subrange(0, bytes@.len() as int) == bytes@);
    string_of(&out)
}

/// What the viewer is asked for: the mode, then the path, the line and the commit, each where there
/// is one.
pub open spec fn viewer_query(
    path: Seq<char>,
    line: nat,
    mode: Seq<char>,
    hash: Option<Seq<char>>,
) -> Seq<char> {
    let with_mode = "mode="@ + percent_text(mode);
    let with_path = if path.len() == 0 {
        with_mode
    } else {
        with_mode + "&path="@ + percent_text(path)
    };
    let with_line = if line == 0 {
        with_path
    } else {
        with_path + "&line="@ + decimal(line)
    };
    match hash {
        Some(h) if h.len() > 0 => with_line + "&hash="@ + percent_text(h),
        _ => with_line,
    }
}

/// The script that opens a file in the viewer.
pub fn open_viewer(path: &str, line: usize, mode: &str, hash: Option<&str>) -> (script: String)
    ensures
        script@ == "location.replace('viewer.html?"@ + viewer_query(
            path@,
            line as nat,
            mode@,
            hash.deep_view(),
        ) + "')"@,
{
    let mut query = "mode=".to_string();
    query.append(percent_encode(mode).as_str());
    if !path.is_empty() {
        query.append("&path=");
        query.append(percent_encode(path).as_str());
    }
    if line > 0 {
        query.append("&line=");
        query.append(decimal_of(line as u64).as_str());
    }
    if let Some(h) = hash {
        if !h.is_empty() {
            query.append("&hash=");
            query.append(percent_encode(h).as_str());
        }
    }
    let mut script = "location.replace('viewer.html?".to_string();
    script.append(query.as_str());
    script.append("')");
    script
}

// ---------------------------------------------------------------------------
// Laws
// ---------------------------------------------------------------------------

/// Whether a character may stand in a query.
pub open spec fn query_char(c: char) -> bool {
    c == '%' || c == '&' || c == '=' || (c as u32 <= 126 && query_safe((c as u32) as u8))
}

/// Whether all of a text may stand in a query.
pub open spec fn query_text(s: Seq<char>) -> bool {
    forall|i: int| 0 <= i < s.len() ==> query_char(#[trigger] s[i])
}

proof fn percent_bytes_are_query_text(bytes: Seq<u8>)
    ensures
        query_text(percent_bytes(bytes)),
    decreases bytes.len(),
{
    if bytes.len() > 0 {
        percent_bytes_are_query_text(bytes.drop_last());
        let head = percent_bytes(bytes.drop_last());
        let tail = percent_byte(bytes.last());
        let all = percent_bytes(bytes);
        assert(query_text(tail));
        assert forall|i: int| 0 <= i < all.len() implies query_char(#[trigger] all[i]) by {
            if i < head.len() {
                assert(all[i] == head[i]);
            } else {
                assert(all[i] == tail[i - head.len()]);
            }
        }
    }
}

proof fn query_text_joins(a: Seq<char>, b: Seq<char>)
    requires
        query_text(a),
        query_text(b),
    ensures
        query_text(a + b),
{
    assert forall|i: int| 0 <= i < (a + b).len() implies query_char(#[trigger] (a + b)[i]) by {
        if i < a.len() {
            assert((a + b)[i] == a[i]);
        } else {
            assert((a + b)[i] == b[i - a.len()]);
        }
    }
}

/// Whatever the viewer is asked for, the script stays within its quotes: the query holds letters,
/// digits and a few signs only, and no quote is among them.
pub proof fn query_stays_within_its_quotes(
    path: Seq<char>,
    line: nat,
    mode: Seq<char>,
    hash: Option<Seq<char>>,
)
    ensures
        query_text(viewer_query(path, line, mode, hash)),
        !query_char('\''),
{
    reveal_strlit("mode=");
    reveal_strlit("&path=");
    reveal_strlit("&line=");
    reveal_strlit("&hash=");
    percent_bytes_are_query_text(encode_utf8(mode));
    percent_bytes_are_query_text(encode_utf8(path));
    crate::number::decimal_reads_back(line, line);
    assert forall|i: int| 0 <= i < decimal(line).len() implies query_char(
        #[trigger] decimal(line)[i],
    ) by {
        assert(crate::number::is_digit(decimal(line)[i]));
    }
    let with_mode = "mode="@ + percent_text(mode);
    query_text_joins("mode="@, percent_text(mode));
    query_text_joins(with_mode, "&path="@);
    query_text_joins(with_mode + "&path="@, percent_text(path));
    let with_path = if path.len() == 0 {
        with_mode
    } else {
        with_mode + "&path="@ + percent_text(path)
    };
    query_text_joins(with_path, "&line="@);
    query_text_joins(with_path + "&line="@, decimal(line));
    let with_line = if line == 0 {
        with_path
    } else {
        with_path + "&line="@ + decimal(line)
    };
    if let Some(h) = hash {
        percent_bytes_are_query_text(encode_utf8(h));
        query_text_joins(with_line, "&hash="@);
        query_text_joins(with_line + "&hash="@, percent_text(h));
    }
}

/// The number that a hexadecimal digit stands for.
pub open spec fn hex_value(c: char) -> int {
    let u = c as u32;
    if 48 <= u <= 57 {
        u - 48
    } else {
        u - 55
    }
}

/// The bytes that a text in a query stands for.
pub open spec fn decoded(text: Seq<char>) -> Seq<u8>
    decreases text.len(),
{
    if text.len() == 0 {
        seq![]
    } else if text[0] == '%' && text.len() >= 3 {
        seq![(hex_value(text[1]) * 16 + hex_value(text[2])) as u8] + decoded(
            text.subrange(3, text.len() as int),
        )
    } else {
        seq![text[0] as u8] + decoded(text.subrange(1, text.len() as int))
    }
}

proof fn decoded_of_byte(b: u8, rest: Seq<char>)
    ensures
        decoded(percent_byte(b) + rest) == seq![b] + decoded(rest),
{
    let text = percent_byte(b) + rest;
    if query_safe(b) {
        assert(text[0] == b as char);
        assert(text.subrange(1, text.len() as int) == rest);
        assert(text[0] != '%');
    } else {
        assert(text[0] == '%' && text[1] == hex_digit(b as int / 16) && text[2] == hex_digit(
            b as int % 16,
        ));
        assert(text.subrange(3, text.len() as int) == rest);
    }
}

proof fn decoded_with(bytes: Seq<u8>, rest: Seq<char>)
    ensures
        decoded(percent_bytes(bytes) + rest) == bytes + decoded(rest),
    decreases bytes.len(),
{
    if bytes.len() == 0 {
        assert(percent_bytes(bytes) + rest == rest);
        assert(bytes + decoded(rest) == decoded(rest));
    } else {
        let head = percent_bytes(bytes.drop_last());
        let tail = percent_byte(bytes.last());
        assert(percent_bytes(bytes) + rest == head + (tail + rest));
        decoded_with(bytes.drop_last(), tail + rest);
        decoded_of_byte(bytes.last(), rest);
        assert(bytes.drop_last() + (seq![bytes.last()] + decoded(rest)) == bytes + decoded(rest));
    }
}

/// A text in a query stands for the text that it was made of.
pub proof fn percent_text_reads_back(s: Seq<char>)
    ensures
        decoded(percent_text(s)) == encode_utf8(s),
{
    let bytes = encode_utf8(s);
    let none = Seq::<char>::empty();
    decoded_with(bytes, none);
    assert(percent_bytes(bytes) + none == percent_bytes(bytes));
    assert(bytes + decoded(none) == bytes);
}

/// What the viewer is asked for begins with the mode; the path, the line and the commit follow, each
/// under its own name and only where there is one, and none of them changes another.
pub proof fn query_tells_what_is_asked_for(
    path: Seq<char>,
    line: nat,
    mode: Seq<char>,
    hash: Seq<char>,
)
    requires
        path.len() > 0,
        line > 0,
        hash.len() > 0,
    ensures
        viewer_query(seq![], 0, mode, None) == "mode="@ + percent_text(mode),
        viewer_query(path, 0, mode, None) == viewer_query(seq![], 0, mode, None) + "&path="@
            + percent_text(path),
        viewer_query(seq![], line, mode, None) == viewer_query(seq![], 0, mode, None) + "&line="@
            + decimal(line),
        viewer_query(path, line, mode, None) == viewer_query(path, 0, mode, None) + "&line="@
            + decimal(line),
        viewer_query(path, line, mode, Some(hash)) == viewer_query(path, line, mode, None)
            + "&hash="@ + percent_text(hash),
        viewer_query(path, 0, mode, Some(hash)) == viewer_query(path, 0, mode, None) + "&hash="@
            + percent_text(hash),
        viewer_query(seq![], line, mode, Some(hash)) == viewer_query(seq![], line, mode, None)
            + "&hash="@ + percent_text(hash),
        viewer_query(seq![], 0, mode, Some(hash)) == viewer_query(seq![], 0, mode, None) + "&hash="@
            + percent_text(hash),
        viewer_query(path, line, mode, Some(seq![])) == viewer_query(path, line, mode, None),
{
}

/// Letters, digits and a few signs stand for themselves in a query; every other byte is written with
/// a percent sign.
pub proof fn safe_bytes_stand_for_themselves(b: u8)
    ensures
        (b == 45 || b == 46 || b == 47 || b == 95 || b == 126 || 48 <= b <= 57 || 65 <= b <= 90
            || 97 <= b <= 122) ==> percent_byte(b) == seq![b as char],
        !(b == 45 || b == 46 || b == 47 || b == 95 || b == 126 || 48 <= b <= 57 || 65 <= b <= 90
            || 97 <= b <= 122) ==> percent_byte(b).len() == 3 && percent_byte(b)[0] == '%',
{
}

} // verus!
