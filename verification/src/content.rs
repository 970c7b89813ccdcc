//! How the contents of a file are shown.
use crate::outside::{lowercase, text_from_utf8_lossy, utf8_lossy};
use crate::search::{binary, looks_binary};
use crate::text::{str_eq, string_of};
use vstd::prelude::*;

verus! {

/// Files with more bytes than this are not shown as text.
pub const TEXT_LIMIT: u64 = 1_500_000;

/// Images with more bytes than this are not shown.
pub const IMAGE_LIMIT: u64 = 8_000_000;

/// The media type of an image, by the extension of its name in lower case.
pub open spec fn mime_of(extension: Seq<char>) -> Option<Seq<char>> {
    if extension == "png"@ {
        Some("image/png"@)
    } else if extension == "jpg"@ || extension == "jpeg"@ {
        Some("image/jpeg"@)
    } else if extension == "gif"@ {
        Some("image/gif"@)
    } else if extension == "webp"@ {
        Some("image/webp"@)
    } else if extension == "svg"@ {
        Some("image/svg+xml"@)
    } else if extension == "ico"@ {
        Some("image/x-icon"@)
    } else {
        None
    }
}

/// The media type of an image, by the extension of its name in lower case.
pub fn lower_image_mime(extension: &str) -> (mime: Option<&'static str>)
    ensures
        mime.deep_view() == mime_of(extension@),
{
    if str_eq(extension, "png") {
        Some("image/png")
    } else if str_eq(extension, "jpg") || str_eq(extension, "jpeg") {
        Some("image/jpeg")
    } else if str_eq(extension, "gif") {
        Some("image/gif")
    } else if str_eq(extension, "webp") {
        Some("image/webp")
    } else if str_eq(extension, "svg") {
        Some("image/svg+xml")
    } else if str_eq(extension, "ico") {
        Some("image/x-icon")
    } else {
        None
    }
}

/// The media type of an image, by the extension of its name, in whatever case.
pub fn image_mime(extension: Option<&str>) -> (mime: Option<&'static str>)
    ensures
        mime.deep_view() == (match extension {
            Some(text) => mime_of(lowercase(text@)),
            None => None,
        }),
{
    match extension {
        Some(text) => lower_image_mime(text.to_lowercase().as_str()),
        None => None,
    }
}

/// What is done to show a file.
#[derive(Clone, Copy, Debug)]
pub enum ReadPlan {
    /// It is read and shown as an image of this type.
    Image { mime: &'static str },
    /// It is read and shown as text.
    Text,
    /// It is not read: it is too large.
    TooLarge,
}

/// What is done to show a file of this size, where `mime` is its media type as an image. A
/// directory is not shown.
pub fn plan_read(is_dir: bool, size: u64, mime: Option<&'static str>, shown: &str) -> (plan: Result<
    ReadPlan,
    String,
>)
    ensures
        if is_dir {
            plan matches Err(e) && e@ == "是目录而非文件："@ + shown@
        } else {
            match mime {
                Some(kind) => if size > IMAGE_LIMIT {
                    plan == Ok::<ReadPlan, String>(ReadPlan::TooLarge)
                } else {
                    plan matches Ok(ReadPlan::Image { mime: m }) && m@ == kind@
                },
                None => if size > TEXT_LIMIT {
                    plan == Ok::<ReadPlan, String>(ReadPlan::TooLarge)
                } else {
                    plan == Ok::<ReadPlan, String>(ReadPlan::Text)
                },
            }
        },
{
    if is_dir {
        let mut error = "是目录而非文件：".to_string();
        error.append(shown);
        return Err(error);
    }
    match mime {
        Some(kind) => if size > IMAGE_LIMIT {
            Ok(ReadPlan::TooLarge)
        } else {
            Ok(ReadPlan::Image { mime: kind })
        },
        None => if size > TEXT_LIMIT {
            Ok(ReadPlan::TooLarge)
        } else {
            Ok(ReadPlan::Text)
        },
    }
}

/// What the viewer shows of a file.
pub enum FileContent {
    TooLarge { size: u64 },
    Image { mime: String, data: String },
    Binary { size: u64 },
    Text { content: String, size: u64 },
}

/// The mathematical value of a [`FileContent`].
pub enum FileContentView {
    TooLarge { size: u64 },
    Image { mime: Seq<char>, data: Seq<char> },
    Binary { size: u64 },
    Text { content: Seq<char>, size: u64 },
}

impl View for FileContent {
    type V = FileContentView;

    open spec fn view(&self) -> FileContentView {
        match *self {
            FileContent::TooLarge { size } => FileContentView::TooLarge { size },
            FileContent::Image { mime, data } => FileContentView::Image {
                mime: mime@,
                data: data@,
            },
            FileContent::Binary { size } => FileContentView::Binary { size },
            FileContent::Text { content, size } => FileContentView::Text {
                content: content@,
                size,
            },
        }
    }
}

/// What the viewer shows of a file with these bytes, by the plan for it.
pub fn fs_read(plan: ReadPlan, size: u64, bytes: &[u8]) -> (content: FileContent)
    ensures
        content@ == (match plan {
            ReadPlan::TooLarge => FileContentView::TooLarge { size },
            ReadPlan::Image { mime } => FileContentView::Image { mime: mime@, data: base64(bytes@) },
            ReadPlan::Text => if binary(bytes@) {
                FileContentView::Binary { size }
            } else {
                FileContentView::Text { content: utf8_lossy(bytes@), size }
            },
        }),
{
    match plan {
        ReadPlan::TooLarge => FileContent::TooLarge { size },
        ReadPlan::Image { mime } => FileContent::Image {
            mime: mime.to_string(),
            data: base64_encode(bytes),
        },
        ReadPlan::Text => if looks_binary(bytes) {
            FileContent::Binary { size }
        } else {
            FileContent::Text { content: text_from_utf8_lossy(bytes), size }
        },
    }
}

// ---------------------------------------------------------------------------
// Base64
// ---------------------------------------------------------------------------

/// The character for a number below 64: letters, digits, '+' and '/'.
pub open spec fn digit64(n: int) -> char {
    if n < 26 {
        (65 + n) as char
    } else if n < 52 {
        (71 + n) as char
    } else if n < 62 {
        (n - 4) as char
    } else if n == 62 {
        '+'
    } else {
        '/'
    }
}

/// The base64 text of some bytes: four characters for three bytes, padded at the end.
pub open spec fn base64(data: Seq<u8>) -> Seq<char>
    decreases data.len(),
{
    if data.len() == 0 {
        seq![]
    } else if data.len() == 1 {
        seq![digit64(data[0] as int / 4), digit64(data[0] as int % 4 * 16), '=', '=']
    } else if data.len() == 2 {
        seq![
            digit64(data[0] as int / 4),
            digit64(data[0] as int % 4 * 16 + data[1] as int / 16),
            digit64(data[1] as int % 16 * 4),
            '=',
        ]
    } else {
        seq![
            digit64(data[0] as int / 4),
            digit64(data[0] as int % 4 * 16 + data[1] as int / 16),
            digit64(data[1] as int % 16 * 4 + data[2] as int / 64),
            digit64(data[2] as int % 64),
        ] + base64(data.subrange(3, data.len() as int))
    }
}

fn digit(n: u8) -> (c: char)
    requires
        n < 64,
    ensures
        c == digit64(n as int),
{
    if n < 26 {
        (65 + n) as char
    } else if n < 52 {
        (71 + n) as char
    } else if n < 62 {
        (n - 4) as char
    } else if n == 62 {
        '+'
    } else {
        '/'
    }
}

/// The base64 text of some bytes.
pub fn base64_encode(data: &[u8]) -> (text: String)
    ensures
        text@ == base64(data@),
{
    let mut out: Vec<char> = Vec::new();
    let mut i: usize = 0;
    assert(data@.subrange(0, data@.len() as int) == data@);
    while data.len() - i > 2
        invariant
            i <= data@.len(),
            out@ + base64(data@.subrange(i as int, data@.len() as int)) == base64(data@),
        decreases data@.len() - i,
    {
        let ghost rest = data@.subrange(i as int, data@.len() as int);
        let ghost before = out@;
        let a: u8 = data[i];
        let b: u8 = data[i + 1];
        let c: u8 = data[i + 2];
        out.push(digit(a / 4));
        out.push(digit(a % 4 * 16 + b / 16));
        out.push(digit(b % 16 * 4 + c / 64));
        out.push(digit(c % 64));
        proof {
            assert(rest[0] == a && rest[1] == b && rest[2] == c);
            let group = seq![
                digit64(a as int / 4),
                digit64(a as int % 4 * 16 + b as int / 16),
                digit64(b as int % 16 * 4 + c as int / 64),
                digit64(c as int % 64),
            ];
            assert(out@ == before + group);
            assert(rest.subrange(3, rest.len() as int) == data@.subrange(
                i + 3,
                data@.len() as int,
            ));
            assert(before + (group + base64(data@.subrange(i + 3, data@.len() as int))) == (before
                + group) + base64(data@.subrange(i + 3, data@.len() as int)));
        }
        i = i + 3;
    }
    let ghost rest = data@.subrange(i as int, data@.len() as int);
    let ghost before = out@;
    let left: usize = data.len() - i;
    if left == 1 {
        let a: u8 = data[i];
        assert(rest[0] == a);
        out.push(digit(a / 4));
        out.push(digit(a % 4 * 16));
        out.push('=');
        out.push('=');
        assert(out@ == before + base64(rest));
    } else if left == 2 {
        let a: u8 = data[i];
        let b: u8 = data[i + 1];
        assert(rest[0] == a && rest[1] == b);
        out.push(digit(a / 4));
        out.push(digit(a % 4 * 16 + b / 16));
        out.push(digit(b % 16 * 4));
        out.push('=');
        assert(out@ == before + base64(rest));
    } else {
        assert(out@ == before + base64(rest));
    }
    string_of(&out)
}

/// The number that a base64 character stands for.
pub open spec fn value64(c: char) -> Option<int> {
    let u = c as u32;
    if 65 <= u <= 90 {
        Some(u - 65)
    } else if 97 <= u <= 122 {
        Some(u - 71)
    } else if 48 <= u <= 57 {
        Some(u + 4)
    } else if c == '+' {
        Some(62)
    } else if c == '/' {
        Some(63)
    } else {
        None
    }
}

/// The bytes that a group of four base64 characters stands for.
pub open spec fn group_bytes(group: Seq<char>) -> Option<Seq<u8>> {
    match (value64(group[0]), value64(group[1]), value64(group[2]), value64(group[3])) {
        (Some(a), Some(b), Some(c), Some(d)) => Some(
            seq![(a * 4 + b / 16) as u8, (b % 16 * 16 + c / 4) as u8, (c % 4 * 64 + d) as u8],
        ),
        (Some(a), Some(b), Some(c), None) if group[3] == '=' => Some(
            seq![(a * 4 + b / 16) as u8, (b % 16 * 16 + c / 4) as u8],
        ),
        (Some(a), Some(b), None, None) if group[2] == '=' && group[3] == '=' => Some(
            seq![(a * 4 + b / 16) as u8],
        ),
        _ => None,
    }
}

/// The bytes that a base64 text stands for, where it is one.
pub open spec fn base64_bytes(text: Seq<char>) -> Option<Seq<u8>>
    decreases text.len(),
{
    if text.len() == 0 {
        Some(seq![])
    } else if text.len() < 4 {
        None
    } else {
        match (
            group_bytes(text.subrange(0, 4)),
            base64_bytes(text.subrange(4, text.len() as int)),
        ) {
            (Some(head), Some(tail)) => Some(head + tail),
            _ => None,
        }
    }
}

/// A base64 text stands for the bytes that it was made of.
pub proof fn base64_reads_back(data: Seq<u8>)
    ensures
        base64_bytes(base64(data)) == Some(data),
    decreases data.len(),
{
    let text = base64(data);
    if data.len() == 0 {
    } else if data.len() <= 2 {
        assert(text.subrange(0, 4) == text);
        assert(text.subrange(4, 4) == Seq::<char>::empty());
        assert(base64_bytes(text.subrange(4, 4)) == Some(Seq::<u8>::empty()));
        digits_read_back();
        assert(group_bytes(text)->0 == data);
        assert(data + Seq::<u8>::empty() == data);
    } else {
        let rest = data.subrange(3, data.len() as int);
        base64_reads_back(rest);
        assert(text.subrange(4, text.len() as int) == base64(rest));
        digits_read_back();
        let group = text.subrange(0, 4);
        assert(group[0] == text[0] && group[1] == text[1] && group[2] == text[2] && group[3]
            == text[3]);
        assert(group_bytes(group)->0 == data.subrange(0, 3));
        assert(data.subrange(0, 3) + rest == data);
    }
}

proof fn digits_read_back()
    ensures
        forall|n: int| 0 <= n < 64 ==> value64(#[trigger] digit64(n)) == Some(n),
{
}

// ---------------------------------------------------------------------------
// Laws
// ---------------------------------------------------------------------------

/// The media type goes by the extension alone: seven extensions are images, and no other is.
pub proof fn extension_tells_the_image(extension: Seq<char>)
    ensures
        mime_of("png"@) == Some("image/png"@),
        mime_of("jpg"@) == Some("image/jpeg"@),
        mime_of("jpeg"@) == Some("image/jpeg"@),
        mime_of("gif"@) == Some("image/gif"@),
        mime_of("webp"@) == Some("image/webp"@),
        mime_of("svg"@) == Some("image/svg+xml"@),
        mime_of("ico"@) == Some("image/x-icon"@),
        extension != "png"@ && extension != "jpg"@ && extension != "jpeg"@ && extension != "gif"@
            && extension != "webp"@ && extension != "svg"@ && extension != "ico"@ ==> mime_of(
            extension,
        ) is None,
{
    reveal_strlit("png");
    reveal_strlit("jpg");
    reveal_strlit("jpeg");
    reveal_strlit("gif");
    reveal_strlit("webp");
    reveal_strlit("svg");
    reveal_strlit("ico");
    assert("png"@[0] == 'p');
    assert("jpg"@[0] == 'j');
    assert("jpeg"@[0] == 'j');
    assert("gif"@[0] == 'g');
    assert("webp"@[0] == 'w');
    assert("svg"@[0] == 's');
    assert("ico"@[0] == 'i');
}

/// A directory is not shown. An image is shown up to eight million bytes, any other file as text up
/// to one and a half million; what is larger is not read.
pub proof fn large_files_are_not_read(
    is_dir: bool,
    size: u64,
    mime: Option<&'static str>,
    shown: &str,
    plan: Result<ReadPlan, String>,
)
    requires
        call_ensures(plan_read, (is_dir, size, mime, shown), plan),
    ensures
        is_dir ==> plan is Err && plan->Err_0@ == "是目录而非文件："@ + shown@,
        !is_dir && mime is Some && size <= 8_000_000 ==> plan is Ok && (
        plan->Ok_0 matches ReadPlan::Image { mime: kind } && kind@ == (mime->0)@),
        !is_dir && mime is Some && size > 8_000_000 ==> plan is Ok && plan->Ok_0 is TooLarge,
        !is_dir && mime is None && size <= 1_500_000 ==> plan is Ok && plan->Ok_0 is Text,
        !is_dir && mime is None && size > 1_500_000 ==> plan is Ok && plan->Ok_0 is TooLarge,
{
}

/// What was planned is what is shown: a text as its text unless one of its first bytes is NUL, an
/// image as its bytes in base64, and what is too large by its size alone.
pub proof fn content_is_shown_as_planned(plan: ReadPlan, size: u64, bytes: &[u8], content: FileContent)
    requires
        call_ensures(fs_read, (plan, size, bytes), content),
    ensures
        plan is TooLarge ==> content@ == (FileContentView::TooLarge { size }),
        plan matches ReadPlan::Image { mime } ==> (content@ matches FileContentView::Image {
            mime: kind,
            data,
        } && kind == mime@ && base64_bytes(data) == Some(bytes@)),
        plan is Text && (forall|i: int|
            0 <= i < bytes@.len() && i < 8192 ==> #[trigger] bytes@[i] != 0) ==> content@ == (
        FileContentView::Text { content: utf8_lossy(bytes@), size }),
        plan is Text && (exists|i: int|
            0 <= i < bytes@.len() && i < 8192 && #[trigger] bytes@[i] == 0) ==> content@ == (
        FileContentView::Binary { size }),
{
    base64_reads_back(bytes@);
    if binary(bytes@) {
        let i = choose|i: int|
            0 <= i < bytes@.len() && i < crate::search::SNIFF_BYTES && #[trigger] bytes@[i] == 0;
        assert(bytes@[i] == 0);
    }
}

/// A base64 text has four characters for every three bytes or what is left of them, and the bits that
/// stand for nothing in its last group are 0.
pub proof fn base64_is_padded(data: Seq<u8>)
    ensures
        base64(data).len() == (data.len() + 2) / 3 * 4,
        data.len() % 3 == 1 ==> ({
            let text = base64(data);
            &&& text[text.len() - 1] == '='
            &&& text[text.len() - 2] == '='
            &&& value64(text[text.len() - 3]) matches Some(n) && n % 16 == 0
        }),
        data.len() % 3 == 2 ==> ({
            let text = base64(data);
            &&& text[text.len() - 1] == '='
            &&& value64(text[text.len() - 2]) matches Some(n) && n % 4 == 0
        }),
    decreases data.len(),
{
    digits_read_back();
    if data.len() > 2 {
        let rest = data.subrange(3, data.len() as int);
        base64_is_padded(rest);
        let text = base64(data);
        let tail = base64(rest);
        if data.len() % 3 != 0 {
            assert(text[text.len() - 1] == tail[tail.len() - 1]);
            assert(text[text.len() - 2] == tail[tail.len() - 2]);
            assert(text[text.len() - 3] == tail[tail.len() - 3]);
        }
    }
}

/// The case of an extension does not count, and a file without one is no image.
pub proof fn case_of_an_extension_does_not_count(
    extension: Option<&str>,
    mime: Option<&'static str>,
)
    requires
        call_ensures(image_mime, (extension,), mime),
    ensures
        extension is None ==> mime is None,
        extension matches Some(text) ==> mime.deep_view() == mime_of(lowercase(text@)),
{
}

} // verus!
