//! The files that register the agent to start with the user's session: a
//! Windows scheduled task, a macOS launch agent and a systemd user unit.

use crate::text::{
    after_last, after_last_char, all_digits, chars_of, has_char, has_prefix, is_digit, owned,
    push_char, push_str, starts_with, string_of, trim_both, trim_chars, Trim,
};
use vstd::prelude::*;

verus! {

broadcast use vstd::string::group_string_axioms;

/// The name under which the agent is registered with the system.
pub const AGENT_NAME: &'static str = "com.xiangwriter.remote.agent";

/// The XML escape of one character.
pub open spec fn xml_char(c: char) -> Seq<char> {
    if c == '&' {
        "&amp;"@
    } else if c == '<' {
        "&lt;"@
    } else if c == '>' {
        "&gt;"@
    } else if c == '"' {
        "&quot;"@
    } else if c == '\'' {
        "&apos;"@
    } else {
        seq![c]
    }
}

/// A text with each of `& < > " '` replaced by its XML entity.
pub open spec fn xml_text(s: Seq<char>) -> Seq<char>
    decreases s.len(),
{
    if s.len() == 0 {
        Seq::empty()
    } else {
        xml_text(s.drop_last()) + xml_char(s.last())
    }
}

/// Escapes a text for an XML element or attribute.
pub fn xml(s: &str) -> (r: String)
    ensures
        r@ == xml_text(s@),
{
    let v = chars_of(s);
    let mut out = String::new();
    let mut i: usize = 0;
    while i < v.len()
        invariant
            i <= v.len(),
            v@ == s@,
            out@ == xml_text(v@.take(i as int)),
        decreases v.len() - i,
    {
        let c = v[i];
        assert(v@.take(i + 1).drop_last() =~= v@.take(i as int));
        if c == '&' {
            push_str(&mut out, "&amp;");
        } else if c == '<' {
            push_str(&mut out, "&lt;");
        } else if c == '>' {
            push_str(&mut out, "&gt;");
        } else if c == '"' {
            push_str(&mut out, "&quot;");
        } else if c == '\'' {
            push_str(&mut out, "&apos;");
        } else {
            push_char(&mut out, c);
        }
        i += 1;
    }
    assert(v@.take(v.len() as int) =~= v@);
    out
}

/// The characters that open or close XML markup or a quoted attribute.
pub open spec fn xml_markup(c: char) -> bool {
    c == '<' || c == '>' || c == '"' || c == '\''
}

/// An escaped text holds no markup character, so a path written into a
/// registration file can neither end its element nor its attribute.
pub proof fn escaped_xml_has_no_markup(s: Seq<char>)
    ensures
        forall|i: int| 0 <= i < xml_text(s).len() ==> !xml_markup(#[trigger] xml_text(s)[i]),
    decreases s.len(),
{
    if s.len() > 0 {
        escaped_xml_has_no_markup(s.drop_last());
        reveal_strlit("&amp;");
        reveal_strlit("&lt;");
        reveal_strlit("&gt;");
        reveal_strlit("&quot;");
        reveal_strlit("&apos;");
        let head = xml_text(s.drop_last());
        let tail = xml_char(s.last());
        assert forall|i: int| 0 <= i < xml_text(s).len() implies !xml_markup(#[trigger] xml_text(s)[i]) by {
            if i < head.len() {
                assert(xml_text(s)[i] == head[i]);
            } else {
                assert(xml_text(s)[i] == tail[i - head.len()]);
            }
        }
    }
}

/// The characters `xml` replaces by an entity.
pub open spec fn xml_special(c: char) -> bool {
    c == '&' || xml_markup(c)
}

/// A text without a character `xml` replaces is written as it is.
pub proof fn plain_text_is_not_escaped(s: Seq<char>)
    requires
        forall|i: int| 0 <= i < s.len() ==> !xml_special(#[trigger] s[i]),
    ensures
        xml_text(s) == s,
    decreases s.len(),
{
    if s.len() > 0 {
        assert(!xml_special(s[s.len() - 1]));
        plain_text_is_not_escaped(s.drop_last());
        assert(s.drop_last() + seq![s.last()] =~= s);
    }
}

/// The five entities, as characters.
pub open spec fn amp_entity() -> Seq<char> {
    seq!['&', 'a', 'm', 'p', ';']
}

pub open spec fn lt_entity() -> Seq<char> {
    seq!['&', 'l', 't', ';']
}

pub open spec fn gt_entity() -> Seq<char> {
    seq!['&', 'g', 't', ';']
}

pub open spec fn quot_entity() -> Seq<char> {
    seq!['&', 'q', 'u', 'o', 't', ';']
}

pub open spec fn apos_entity() -> Seq<char> {
    seq!['&', 'a', 'p', 'o', 's', ';']
}

/// Reading an escaped text left to right: each of the five entities
/// stands for its character, any other character for itself.
pub open spec fn xml_decode(s: Seq<char>) -> Seq<char>
    decreases s.len(),
{
    if s.len() == 0 {
        Seq::empty()
    } else if amp_entity().is_prefix_of(s) {
        seq!['&'] + xml_decode(s.skip(5))
    } else if lt_entity().is_prefix_of(s) {
        seq!['<'] + xml_decode(s.skip(4))
    } else if gt_entity().is_prefix_of(s) {
        seq!['>'] + xml_decode(s.skip(4))
    } else if quot_entity().is_prefix_of(s) {
        seq!['"'] + xml_decode(s.skip(6))
    } else if apos_entity().is_prefix_of(s) {
        seq!['\''] + xml_decode(s.skip(6))
    } else {
        seq![s[0]] + xml_decode(s.skip(1))
    }
}

proof fn escape_front(c: char, t: Seq<char>)
    ensures
        xml_text(seq![c] + t) == xml_char(c) + xml_text(t),
    decreases t.len(),
{
    let u = seq![c] + t;
    assert(u.len() > 0);
    assert(xml_text(u) == xml_text(u.drop_last()) + xml_char(u.last()));
    if t.len() == 0 {
        assert(u.drop_last() =~= Seq::<char>::empty());
        assert(xml_text(u.drop_last()) == Seq::<char>::empty());
        assert(u.last() == c);
        assert(xml_text(t) == Seq::<char>::empty());
        assert(xml_text(u) =~= xml_char(c) + xml_text(t));
    } else {
        escape_front(c, t.drop_last());
        assert(u.drop_last() =~= seq![c] + t.drop_last());
        assert(u.last() == t.last());
        assert(xml_text(t) == xml_text(t.drop_last()) + xml_char(t.last()));
        assert(xml_text(u) =~= xml_char(c) + xml_text(t));
    }
}

proof fn decode_front(c: char, w: Seq<char>)
    ensures
        xml_decode(xml_char(c) + w) == seq![c] + xml_decode(w),
{
    reveal_strlit("&amp;");
    reveal_strlit("&lt;");
    reveal_strlit("&gt;");
    reveal_strlit("&quot;");
    reveal_strlit("&apos;");
    let x = xml_char(c) + w;
    if c == '&' {
        assert("&amp;"@ =~= amp_entity());
        assert(x.subrange(0, 5) =~= amp_entity());
        assert(x.skip(5) =~= w);
    } else if c == '<' {
        assert("&lt;"@ =~= lt_entity());
        assert(x[1] == 'l');
        assert(x.subrange(0, 4) =~= lt_entity());
        assert(x.skip(4) =~= w);
    } else if c == '>' {
        assert("&gt;"@ =~= gt_entity());
        assert(x[1] == 'g');
        assert(x.subrange(0, 4) =~= gt_entity());
        assert(x.skip(4) =~= w);
    } else if c == '"' {
        assert("&quot;"@ =~= quot_entity());
        assert(x[1] == 'q');
        assert(x.subrange(0, 6) =~= quot_entity());
        assert(x.skip(6) =~= w);
    } else if c == '\'' {
        assert("&apos;"@ =~= apos_entity());
        assert(x[1] == 'a' && x[2] == 'p');
        assert(x.subrange(0, 6) =~= apos_entity());
        assert(x.skip(6) =~= w);
    } else {
        assert(x[0] == c);
        assert(x.skip(1) =~= w);
    }
}

/// Escaping loses nothing: reading the escaped text back, each entity as
/// its character, gives the original text.
pub proof fn escaped_xml_decodes_to_the_text(s: Seq<char>)
    ensures
        xml_decode(xml_text(s)) == s,
    decreases s.len(),
{
    if s.len() > 0 {
        let t = s.skip(1);
        assert(seq![s[0]] + t =~= s);
        escape_front(s[0], t);
        decode_front(s[0], xml_text(t));
        escaped_xml_decodes_to_the_text(t);
    }
}

/// Whether a text begins with one of the five entities.
pub open spec fn starts_entity(t: Seq<char>) -> bool {
    ||| amp_entity().is_prefix_of(t)
    ||| lt_entity().is_prefix_of(t)
    ||| gt_entity().is_prefix_of(t)
    ||| quot_entity().is_prefix_of(t)
    ||| apos_entity().is_prefix_of(t)
}

proof fn entity_prefix_extends(t: Seq<char>, u: Seq<char>)
    requires
        starts_entity(t),
    ensures
        starts_entity(t + u),
{
    let w = t + u;
    if amp_entity().is_prefix_of(t) {
        assert(w.subrange(0, 5) =~= t.subrange(0, 5));
    } else if lt_entity().is_prefix_of(t) {
        assert(w.subrange(0, 4) =~= t.subrange(0, 4));
    } else if gt_entity().is_prefix_of(t) {
        assert(w.subrange(0, 4) =~= t.subrange(0, 4));
    } else if quot_entity().is_prefix_of(t) {
        assert(w.subrange(0, 6) =~= t.subrange(0, 6));
    } else {
        assert(w.subrange(0, 6) =~= t.subrange(0, 6));
    }
}

/// Every `&` of an escaped text begins one of the five entities, so the
/// escaped text never holds a bare ampersand.
pub proof fn escaped_ampersands_begin_entities(s: Seq<char>)
    ensures
        forall|i: int| 0 <= i < xml_text(s).len() && #[trigger] xml_text(s)[i] == '&' ==> starts_entity(xml_text(s).skip(i)),
    decreases s.len(),
{
    if s.len() > 0 {
        escaped_ampersands_begin_entities(s.drop_last());
        reveal_strlit("&amp;");
        reveal_strlit("&lt;");
        reveal_strlit("&gt;");
        reveal_strlit("&quot;");
        reveal_strlit("&apos;");
        let head = xml_text(s.drop_last());
        let tail = xml_char(s.last());
        let x = xml_text(s);
        assert(x == head + tail);
        assert forall|i: int| 0 <= i < x.len() && #[trigger] x[i] == '&' implies starts_entity(x.skip(i)) by {
            if i < head.len() {
                assert(head[i] == x[i]);
                assert(x.skip(i) =~= head.skip(i) + tail);
                entity_prefix_extends(head.skip(i), tail);
            } else {
                let c = s.last();
                assert(x[i] == tail[i - head.len()]);
                assert(x.skip(i) =~= tail.skip(i - head.len()));
                if c == '&' {
                    assert("&amp;"@ =~= amp_entity());
                } else if c == '<' {
                    assert("&lt;"@ =~= lt_entity());
                } else if c == '>' {
                    assert("&gt;"@ =~= gt_entity());
                } else if c == '"' {
                    assert("&quot;"@ =~= quot_entity());
                } else if c == '\'' {
                    assert("&apos;"@ =~= apos_entity());
                }
                assert(i == head.len());
                assert(x.skip(i) =~= tail);
                assert(tail.subrange(0, tail.len() as int) =~= tail);
            }
        }
    }
}

/// The escape of one character inside a quoted systemd word.
pub open spec fn unit_char(c: char) -> Seq<char> {
    if c == '\\' {
        "\\\\"@
    } else if c == '"' {
        "\\\""@
    } else if c == '%' {
        "%%"@
    } else {
        seq![c]
    }
}

/// A text with `\` and `"` escaped by a backslash and `%` doubled.
pub open spec fn unit_text(s: Seq<char>) -> Seq<char>
    decreases s.len(),
{
    if s.len() == 0 {
        Seq::empty()
    } else {
        unit_text(s.drop_last()) + unit_char(s.last())
    }
}

/// Escapes a text for a double-quoted word of a systemd unit.
pub fn unit_quote(s: &str) -> (r: String)
    ensures
        r@ == unit_text(s@),
{
    let v = chars_of(s);
    let mut out = String::new();
    let mut i: usize = 0;
    while i < v.len()
        invariant
            i <= v.len(),
            v@ == s@,
            out@ == unit_text(v@.take(i as int)),
        decreases v.len() - i,
    {
        let c = v[i];
        assert(v@.take(i + 1).drop_last() =~= v@.take(i as int));
        if c == '\\' {
            push_str(&mut out, "\\\\");
        } else if c == '"' {
            push_str(&mut out, "\\\"");
        } else if c == '%' {
            push_str(&mut out, "%%");
        } else {
            push_char(&mut out, c);
        }
        i += 1;
    }
    assert(v@.take(v.len() as int) =~= v@);
    out
}

/// Whether a path can be written into a registration file: it holds no
/// carriage return, line feed or NUL.
pub open spec fn path_writable(s: Seq<char>) -> bool {
    !has_char(s, '\r') && !has_char(s, '\n') && !has_char(s, '\0')
}

/// Accepts a path that holds no line break or NUL.
pub fn checked(s: &str) -> (r: Result<&str, String>)
    ensures
        r is Ok <==> path_writable(s@),
        r matches Ok(t) ==> t@ == s@,
        r matches Err(e) ==> e@ == "AUTOSTART_INVALID_PATH"@,
{
    let v = chars_of(s);
    let mut i: usize = 0;
    while i < v.len()
        invariant
            i <= v.len(),
            v@ == s@,
            forall|j: int| 0 <= j < i ==> v@[j] != '\r' && v@[j] != '\n' && v@[j] != '\0',
        decreases v.len() - i,
    {
        let c = v[i];
        if c == '\r' || c == '\n' || c == '\0' {
            return Err(owned("AUTOSTART_INVALID_PATH"));
        }
        i += 1;
    }
    Ok(s)
}

/// The scheduled-task text before the first user id.
pub open spec fn task_head() -> Seq<char> {
    "<?xml version=\"1.0\" encoding=\"UTF-8\"?><Task version=\"1.2\" xmlns=\"http://schemas.microsoft.com/windows/2004/02/mit/task\"><RegistrationInfo><Description>xiangwriter远程器 · 用户启用的执行端</Description></RegistrationInfo><Triggers><LogonTrigger><Enabled>true</Enabled><UserId>"@
}

/// The scheduled-task text between the two user ids.
pub open spec fn task_principal() -> Seq<char> {
    "</UserId></LogonTrigger></Triggers><Principals><Principal id=\"Author\"><UserId>"@
}

/// The scheduled-task text between the second user id and the program.
pub open spec fn task_settings() -> Seq<char> {
    "</UserId><LogonType>InteractiveToken</LogonType><RunLevel>LeastPrivilege</RunLevel></Principal></Principals><Settings><MultipleInstancesPolicy>IgnoreNew</MultipleInstancesPolicy><DisallowStartIfOnBatteries>false</DisallowStartIfOnBatteries><StopIfGoingOnBatteries>false</StopIfGoingOnBatteries><ExecutionTimeLimit>PT0S</ExecutionTimeLimit></Settings><Actions Context=\"Author\"><Exec><Command>"@
}

/// The scheduled-task text between the program and the data directory.
pub open spec fn task_arguments() -> Seq<char> {
    "</Command><Arguments>--xiangwriter-agent &quot;"@
}

/// The scheduled-task text after the data directory.
pub open spec fn task_tail() -> Seq<char> {
    "&quot;</Arguments></Exec></Actions></Task>"@
}

/// The Windows scheduled task: started at the user's logon, with the least
/// privilege, running the agent on the data directory. Every value is XML
/// escaped.
pub open spec fn windows_task(executable: Seq<char>, data: Seq<char>, sid: Seq<char>) -> Seq<char> {
    task_head() + xml_text(sid) + task_principal() + xml_text(sid) + task_settings() + xml_text(
        executable,
    ) + task_arguments() + xml_text(data) + task_tail()
}

/// The Windows scheduled-task definition for the agent.
pub fn windows_xml(executable: &str, data: &str, sid: &str) -> (r: String)
    ensures
        r@ == windows_task(executable@, data@, sid@),
{
    let sid_text = xml(sid);
    let exe_text = xml(executable);
    let data_text = xml(data);
    let mut s = owned(
        "<?xml version=\"1.0\" encoding=\"UTF-8\"?><Task version=\"1.2\" xmlns=\"http://schemas.microsoft.com/windows/2004/02/mit/task\"><RegistrationInfo><Description>xiangwriter远程器 · 用户启用的执行端</Description></RegistrationInfo><Triggers><LogonTrigger><Enabled>true</Enabled><UserId>",
    );
    push_str(&mut s, sid_text.as_str());
    push_str(
        &mut s,
        "</UserId></LogonTrigger></Triggers><Principals><Principal id=\"Author\"><UserId>",
    );
    push_str(&mut s, sid_text.as_str());
    push_str(
        &mut s,
        "</UserId><LogonType>InteractiveToken</LogonType><RunLevel>LeastPrivilege</RunLevel></Principal></Principals><Settings><MultipleInstancesPolicy>IgnoreNew</MultipleInstancesPolicy><DisallowStartIfOnBatteries>false</DisallowStartIfOnBatteries><StopIfGoingOnBatteries>false</StopIfGoingOnBatteries><ExecutionTimeLimit>PT0S</ExecutionTimeLimit></Settings><Actions Context=\"Author\"><Exec><Command>",
    );
    push_str(&mut s, exe_text.as_str());
    push_str(&mut s, "</Command><Arguments>--xiangwriter-agent &quot;");
    push_str(&mut s, data_text.as_str());
    push_str(&mut s, "&quot;</Arguments></Exec></Actions></Task>");
    s
}

/// The launch-agent text before the program.
pub open spec fn plist_head() -> Seq<char> {
    "<?xml version=\"1.0\" encoding=\"UTF-8\"?><!DOCTYPE plist PUBLIC \"-//Apple//DTD PLIST 1.0//EN\" \"http://www.apple.com/DTDs/PropertyList-1.0.dtd\"><plist version=\"1.0\"><dict><key>Label</key><string>com.xiangwriter.remote.agent</string><key>ProgramArguments</key><array><string>"@
}

/// The launch-agent text between the program and the data directory.
pub open spec fn plist_middle() -> Seq<char> {
    "</string><string>--xiangwriter-agent</string><string>"@
}

/// The launch-agent text after the data directory.
pub open spec fn plist_tail() -> Seq<char> {
    "</string></array><key>RunAtLoad</key><true/><key>ProcessType</key><string>Background</string></dict></plist>"@
}

/// The macOS launch agent: run at load in the background, with the program
/// and the data directory XML escaped.
pub open spec fn launch_agent(executable: Seq<char>, data: Seq<char>) -> Seq<char> {
    plist_head() + xml_text(executable) + plist_middle() + xml_text(data) + plist_tail()
}

/// The macOS launch-agent property list for the agent.
pub fn macos_plist(executable: &str, data: &str) -> (r: String)
    ensures
        r@ == launch_agent(executable@, data@),
{
    let exe_text = xml(executable);
    let data_text = xml(data);
    let mut s = owned(
        "<?xml version=\"1.0\" encoding=\"UTF-8\"?><!DOCTYPE plist PUBLIC \"-//Apple//DTD PLIST 1.0//EN\" \"http://www.apple.com/DTDs/PropertyList-1.0.dtd\"><plist version=\"1.0\"><dict><key>Label</key><string>com.xiangwriter.remote.agent</string><key>ProgramArguments</key><array><string>",
    );
    push_str(&mut s, exe_text.as_str());
    push_str(&mut s, "</string><string>--xiangwriter-agent</string><string>");
    push_str(&mut s, data_text.as_str());
    push_str(
        &mut s,
        "</string></array><key>RunAtLoad</key><true/><key>ProcessType</key><string>Background</string></dict></plist>",
    );
    s
}

/// The unit text before the program.
pub open spec fn unit_head() -> Seq<char> {
    "[Unit]\nDescription=xiangwriter remote task agent\nAfter=network-online.target\n[Service]\nType=simple\nExecStart=:\""@
}

/// The unit text between the program and the data directory.
pub open spec fn unit_middle() -> Seq<char> {
    "\" --xiangwriter-agent \""@
}

/// The unit text after the data directory.
pub open spec fn unit_tail() -> Seq<char> {
    "\"\nKillMode=control-group\nTimeoutStopSec=10\n[Install]\nWantedBy=default.target\n"@
}

/// The systemd user unit: the program and the data directory are quoted
/// words, and `ExecStart=:` keeps systemd from expanding `$` in them.
pub open spec fn user_unit(executable: Seq<char>, data: Seq<char>) -> Seq<char> {
    unit_head() + unit_text(executable) + unit_middle() + unit_text(data) + unit_tail()
}

/// The systemd user unit for the agent.
pub fn linux_unit(executable: &str, data: &str) -> (r: String)
    ensures
        r@ == user_unit(executable@, data@),
{
    let exe_text = unit_quote(executable);
    let data_text = unit_quote(data);
    let mut s = owned(
        "[Unit]\nDescription=xiangwriter remote task agent\nAfter=network-online.target\n[Service]\nType=simple\nExecStart=:\"",
    );
    push_str(&mut s, exe_text.as_str());
    push_str(&mut s, "\" --xiangwriter-agent \"");
    push_str(&mut s, data_text.as_str());
    push_str(
        &mut s,
        "\"\nKillMode=control-group\nTimeoutStopSec=10\n[Install]\nWantedBy=default.target\n",
    );
    s
}

/// Whether a text reads as a Windows security identifier: `S-1-` followed
/// by digits, `S` and `-` only.
pub open spec fn sid_like(s: Seq<char>) -> bool {
    &&& starts_with(s, "S-1-"@)
    &&& forall|i: int| 0 <= i < s.len() ==> #[trigger] s[i] == 'S' || s[i] == '-' || is_digit(s[i])
}

/// The field `whoami /user /fo csv /nh` prints last: the output trimmed,
/// after its last comma, without surrounding quotes.
pub open spec fn last_csv_field(output: Seq<char>) -> Seq<char> {
    trim_both(after_last(trim_both(output, Trim::Spaces), ','), Trim::Char('"'))
}

/// The user's security identifier from the output of
/// `whoami /user /fo csv /nh`, or `AUTOSTART_USER_ID_UNKNOWN`.
pub fn user_sid(output: &str) -> (r: Result<String, String>)
    ensures
        r is Ok <==> sid_like(last_csv_field(output@)),
        r matches Ok(s) ==> s@ == last_csv_field(output@),
        r matches Err(e) ==> e@ == "AUTOSTART_USER_ID_UNKNOWN"@,
{
    let v = chars_of(output);
    let trimmed = trim_chars(&v, Trim::Spaces);
    let last = after_last_char(&trimmed, ',');
    let field = trim_chars(&last, Trim::Char('"'));
    if !has_prefix(&field, "S-1-") {
        return Err(owned("AUTOSTART_USER_ID_UNKNOWN"));
    }
    let mut i: usize = 0;
    while i < field.len()
        invariant
            i <= field.len(),
            field@ == last_csv_field(output@),
            forall|j: int|
                0 <= j < i ==> #[trigger] field@[j] == 'S' || field@[j] == '-' || is_digit(
                    field@[j],
                ),
        decreases field.len() - i,
    {
        let c = field[i];
        if !(c == 'S' || c == '-' || ('0' <= c && c <= '9')) {
            assert(!(field@[i as int] == 'S' || field@[i as int] == '-' || is_digit(field@[i as int])));
            return Err(owned("AUTOSTART_USER_ID_UNKNOWN"));
        }
        i += 1;
    }
    Ok(string_of(&field))
}

/// The Windows task starts the agent at the user's logon: its text holds an
/// enabled logon trigger for the user's escaped id.
pub proof fn windows_tasks_start_at_logon(executable: Seq<char>, data: Seq<char>, sid: Seq<char>)
    ensures
        exists|before: Seq<char>, after: Seq<char>|
            windows_task(executable, data, sid) == before + ("<LogonTrigger><Enabled>true</Enabled><UserId>"@ + xml_text(sid)
                + "</UserId></LogonTrigger>"@) + after,
{
    let trigger = "<LogonTrigger><Enabled>true</Enabled><UserId>"@;
    let close = "</UserId></LogonTrigger>"@;
    reveal_strlit("<LogonTrigger><Enabled>true</Enabled><UserId>");
    reveal_strlit("</UserId></LogonTrigger>");
    reveal_strlit("<?xml version=\"1.0\" encoding=\"UTF-8\"?><Task version=\"1.2\" xmlns=\"http://schemas.microsoft.com/windows/2004/02/mit/task\"><RegistrationInfo><Description>xiangwriter远程器 · 用户启用的执行端</Description></RegistrationInfo><Triggers><LogonTrigger><Enabled>true</Enabled><UserId>");
    reveal_strlit("</UserId></LogonTrigger></Triggers><Principals><Principal id=\"Author\"><UserId>");
    let head = task_head();
    let k = head.len() - trigger.len();
    let before = head.subrange(0, k);
    assert(head.subrange(k, head.len() as int) =~= trigger);
    assert(head =~= before + trigger);
    let principal = task_principal();
    let rest = principal.skip(close.len() as int);
    assert(principal.subrange(0, close.len() as int) =~= close);
    assert(principal =~= close + rest);
    let after = rest + xml_text(sid) + task_settings() + xml_text(executable) + task_arguments() + xml_text(data) + task_tail();
    assert(windows_task(executable, data, sid) =~= before + (trigger + xml_text(sid) + close) + after);
}

} // verus!
