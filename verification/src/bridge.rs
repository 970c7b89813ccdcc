//! The bridge to the kernel's session: where it listens, what it answers, and how it is installed.
use crate::files::is_within;
use crate::number::{decimal, decimal_reads_back, parse_unsigned, unsigned_number};
use crate::text::{chars_of, contains, copy_range, find_from, next_occurrence, next_occurrence_is_first, occurs, occurs_at, second_word, second_word_is_the_second, second_word_of, str_eq, string_of, trim, trim_end, trim_end_of, trimmed, white};
use vstd::prelude::*;

verus! {

/// How old the port file may be, in seconds.
pub const PORT_MAX_AGE_SECS: u64 = 600;

/// How often the bridge is asked, in seconds.
pub const POLL_SECS: u64 = 2;

/// The port under which the bridge listens, by the text of its port file. A file that has not been
/// renewed for too long does not count; one whose age cannot be had does.
pub fn bridge_port(age_secs: Option<u64>, text: &str) -> (port: Option<u16>)
    ensures
        (match port {
            Some(p) => Some(p as nat),
            None => None,
        }) == (match age_secs {
            Some(age) if age > PORT_MAX_AGE_SECS => None,
            _ => unsigned_number(trimmed(text@), u16::MAX as nat),
        }),
{
    if let Some(age) = age_secs {
        if age > PORT_MAX_AGE_SECS {
            return None;
        }
    }
    match parse_unsigned(&trim(&chars_of(text)), u16::MAX as u64) {
        Some(port) => Some(port as u16),
        None => None,
    }
}

/// The request that asks the bridge for its state.
pub fn bridge_request() -> (request: String)
    ensures
        request@ == "GET /state HTTP/1.0\r\nHost: 127.0.0.1\r\nConnection: close\r\n\r\n"@,
{
    "GET /state HTTP/1.0\r\nHost: 127.0.0.1\r\nConnection: close\r\n\r\n".to_string()
}

/// The body of the bridge's answer, trimmed, where the answer has a body and says that all is well.
pub open spec fn answer_body(raw: Seq<char>) -> Option<Seq<char>> {
    match next_occurrence(raw, "\r\n\r\n"@, 0) {
        Some(at) if second_word(raw.subrange(0, at)) == "200"@ => Some(
            trimmed(raw.subrange(at + 4, raw.len() as int)),
        ),
        _ => None,
    }
}

/// The body of the bridge's answer, trimmed, where the answer has a body and says that all is well.
pub fn bridge_body(raw: &str) -> (body: Option<String>)
    ensures
        body.deep_view() == answer_body(raw@),
{
    let text = chars_of(raw);
    proof {
        reveal_strlit("\r\n\r\n");
        next_occurrence_is_first(raw@, "\r\n\r\n"@, 0);
    }
    match find_from(&text, &chars_of("\r\n\r\n"), 0) {
        None => None,
        Some(at) => {
            let head = copy_range(&text, 0, at);
            if !str_eq(string_of(&second_word_of(&head)).as_str(), "200") {
                return None;
            }
            let total: usize = text.len();
            assert(at + 4 <= total);
            Some(string_of(&trim(&copy_range(&text, at + 4, total))))
        },
    }
}

/// What is known of the session's working directory, by the components of its path.
pub struct BridgePoll {
    pub last: Option<Vec<Vec<u8>>>,
}

impl BridgePoll {
    /// Nothing is known yet.
    pub fn new() -> (poll: BridgePoll)
        ensures
            poll.last is None,
    {
        BridgePoll { last: None }
    }

    /// Takes in the working directory that the bridge told, where it is a directory, and says
    /// whether it is another one than before.
    pub fn take(&mut self, cwd: Option<Vec<Vec<u8>>>) -> (changed: bool)
        ensures
            changed == (cwd is Some && cwd.deep_view() != old(self).last.deep_view()),
            final(self).last.deep_view() == (if cwd is Some {
                cwd.deep_view()
            } else {
                old(self).last.deep_view()
            }),
    {
        let cwd = match cwd {
            Some(found) => found,
            None => {
                return false;
            },
        };
        let same = match &self.last {
            Some(known) => {
                let b = known.len() == cwd.len() && is_within(known, &cwd);
                proof {
                    let k = known.deep_view();
                    let c = cwd.deep_view();
                    if k.len() == c.len() {
                        assert(c.subrange(0, k.len() as int) == c);
                    }
                }
                b
            },
            None => false,
        };
        if same {
            return false;
        }
        self.last = Some(cwd);
        true
    }
}

// ---------------------------------------------------------------------------
// Installing
// ---------------------------------------------------------------------------

/// Whether the plugin's files are to be copied: not where the installed entry file holds what the
/// shipped one does. A shipped file that cannot be read counts as empty.
pub fn needs_copy(installed: Option<&str>, shipped: Option<&str>) -> (needed: bool)
    ensures
        needed == (match installed {
            Some(old_text) => old_text@ != (match shipped {
                Some(new_text) => new_text@,
                None => seq![],
            }),
            None => true,
        }),
{
    match installed {
        Some(old_text) => match shipped {
            Some(new_text) => !str_eq(old_text, new_text),
            None => {
                assert(old_text@.len() == 0 ==> old_text@ == Seq::<char>::empty());
                !old_text.is_empty()
            },
        },
        None => true,
    }
}

/// The name of the plugin.
pub open spec fn plugin() -> Seq<char> {
    "dsh-sidebar-bridge"@
}

/// The lines that register the plugin.
pub open spec fn plugin_entry() -> Seq<char> {
    "\n# dsh-desktop 侧边栏数据桥（桌面壳轮询会话/工作区；升级 dsh 不受影响）\n- insert:\n    - id: "@
        + plugin() + "\n      name: "@ + plugin() + "\n"@
}

/// The patch file with the plugin registered, where it is not yet.
pub open spec fn patched(patch: Seq<char>) -> Option<Seq<char>> {
    if occurs(patch, plugin()) {
        None
    } else {
        Some(trim_end(patch) + plugin_entry())
    }
}

/// The patch file with the plugin registered, where it is not yet.
pub fn patch_with_bridge(patch: &str) -> (text: Option<String>)
    ensures
        text.deep_view() == patched(patch@),
{
    let chars = chars_of(patch);
    if contains(&chars, &chars_of("dsh-sidebar-bridge")) {
        return None;
    }
    let mut text = string_of(&trim_end_of(&chars));
    text.append(
        "\n# dsh-desktop 侧边栏数据桥（桌面壳轮询会话/工作区；升级 dsh 不受影响）\n- insert:\n    - id: ",
    );
    text.append("dsh-sidebar-bridge");
    text.append("\n      name: ");
    text.append("dsh-sidebar-bridge");
    text.append("\n");
    assert(text@ == trim_end(patch@) + plugin_entry());
    Some(text)
}

/// Registering the plugin twice is registering it once.
pub proof fn registering_is_idempotent(patch: Seq<char>)
    ensures
        patched(patch) matches Some(text) ==> patched(text) is None,
{
    if let Some(text) = patched(patch) {
        let head = trim_end(patch)
            + "\n# dsh-desktop 侧边栏数据桥（桌面壳轮询会话/工作区；升级 dsh 不受影响）\n- insert:\n    - id: "@;
        let at = head.len() as int;
        assert(text.subrange(at, at + plugin().len()) == plugin());
        assert(occurs_at(text, plugin(), at));
    }
}

// ---------------------------------------------------------------------------
// Laws
// ---------------------------------------------------------------------------

/// The bridge's answer is told by its status: where that is 200 the body is what stands behind the
/// first empty line, without the white space around it; with any other status there is none.
#[verifier::rlimit(40)]
pub proof fn answer_is_told_by_its_status(
    protocol: Seq<char>,
    gap: Seq<char>,
    status: Seq<char>,
    rest: Seq<char>,
    body: Seq<char>,
)
    requires
        protocol.len() > 0,
        gap.len() > 0,
        status.len() > 0,
        forall|i: int| 0 <= i < protocol.len() ==> !white(#[trigger] protocol[i]),
        forall|i: int| 0 <= i < gap.len() ==> white(#[trigger] gap[i]),
        forall|i: int| 0 <= i < status.len() ==> !white(#[trigger] status[i]),
        rest.len() == 0 || white(rest[0]),
        forall|i: int|
            0 <= i < (protocol + (gap + (status + rest))).len() ==> !#[trigger] occurs_at(
                protocol + (gap + (status + rest)) + "\r\n\r\n"@ + body,
                "\r\n\r\n"@,
                i,
            ),
    ensures
        ({
            let raw = protocol + (gap + (status + rest)) + "\r\n\r\n"@ + body;
            &&& status == "200"@ ==> answer_body(raw) == Some(trimmed(body))
            &&& status != "200"@ ==> answer_body(raw) is None
        }),
{
    let head = protocol + (gap + (status + rest));
    let mark = "\r\n\r\n"@;
    let raw = head + mark + body;
    reveal_strlit("\r\n\r\n");
    assert(mark.len() == 4);
    next_occurrence_is_first(raw, mark, 0);
    assert(raw.subrange(head.len() as int, head.len() as int + 4) == mark);
    assert(occurs_at(raw, mark, head.len() as int));
    assert(next_occurrence(raw, mark, 0) == Some(head.len() as int));
    assert(raw.subrange(0, head.len() as int) == head);
    assert(raw.subrange(head.len() as int + 4, raw.len() as int) == body);
    second_word_is_the_second(protocol, gap, status, rest);
}

/// An answer without an empty line has no body.
pub proof fn answer_without_an_empty_line_has_no_body(raw: Seq<char>)
    requires
        !occurs(raw, "\r\n\r\n"@),
    ensures
        answer_body(raw) is None,
{
    next_occurrence_is_first(raw, "\r\n\r\n"@, 0);
}

/// The port file counts where it is not older than ten minutes, or its age is unknown; its number,
/// without white space around it, is the port.
pub proof fn port_file_tells_the_port(
    age_secs: Option<u64>,
    text: &str,
    number: nat,
    port: Option<u16>,
)
    requires
        call_ensures(bridge_port, (age_secs, text), port),
        trimmed(text@) == decimal(number),
    ensures
        age_secs matches Some(age) ==> (age > 600 ==> port is None),
        (age_secs matches Some(age) ==> age <= 600) && number <= 65535 ==> port is Some && port->0
            == number,
        number > 65535 ==> port is None,
{
    decimal_reads_back(number, number);
    if number <= 65535 {
        decimal_reads_back(number, 65535);
    } else {
        let digits = decimal(number);
        assert(unsigned_number(digits, number) == Some(number));
    }
}

/// Registering the plugin adds its lines behind the patch file, of which only white space at the end
/// is lost. A file that names the plugin stays as it is.
pub proof fn registering_adds_the_plugin(patch: Seq<char>)
    ensures
        occurs(patch, "dsh-sidebar-bridge"@) ==> patched(patch) is None,
        !occurs(patch, "dsh-sidebar-bridge"@) ==> (patched(patch) matches Some(text) && text
            == trim_end(patch)
            + "\n# dsh-desktop 侧边栏数据桥（桌面壳轮询会话/工作区；升级 dsh 不受影响）\n- insert:\n    - id: "@
            + "dsh-sidebar-bridge"@ + "\n      name: "@ + "dsh-sidebar-bridge"@ + "\n"@),
{
    if !occurs(patch, "dsh-sidebar-bridge"@) {
        let text = patched(patch)->0;
        assert(text == trim_end(patch)
            + "\n# dsh-desktop 侧边栏数据桥（桌面壳轮询会话/工作区；升级 dsh 不受影响）\n- insert:\n    - id: "@
            + "dsh-sidebar-bridge"@ + "\n      name: "@ + "dsh-sidebar-bridge"@ + "\n"@);
    }
}

/// The plugin's files are copied exactly where none is installed, or another than is shipped.
pub proof fn changed_plugin_is_copied(installed: Option<&str>, shipped: Option<&str>, needed: bool)
    requires
        call_ensures(needs_copy, (installed, shipped), needed),
    ensures
        installed is None ==> needed,
        installed is Some && shipped is Some ==> needed == ((installed->0)@ != (shipped->0)@),
        installed is Some && shipped is None ==> needed == ((installed->0)@.len() > 0),
{
    if installed is Some && (installed->0)@.len() == 0 {
        assert((installed->0)@ == Seq::<char>::empty());
    }
}

/// A working directory that the bridge tells is kept, and is news exactly where it differs from the
/// one before. Where it tells none nothing changes.
pub proof fn only_another_directory_is_news(
    poll: &mut BridgePoll,
    cwd: Option<Vec<Vec<u8>>>,
    changed: bool,
)
    requires
        call_ensures(BridgePoll::take, (poll, cwd), changed),
    ensures
        cwd is None ==> !changed && final(poll).last.deep_view() == old(poll).last.deep_view(),
        cwd is Some ==> final(poll).last.deep_view() == cwd.deep_view(),
        cwd is Some && old(poll).last is None ==> changed,
        cwd is Some && old(poll).last is Some ==> changed == ((cwd->0).deep_view() != (old(
            poll,
        ).last->0).deep_view()),
{
}

} // verus!
