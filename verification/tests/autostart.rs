use tailtask::autostart::{checked, linux_unit, macos_plist, unit_quote, user_sid, windows_xml, xml, AGENT_NAME};

#[test]
fn platform_templates_escape_paths_and_use_user_permissions() {
    let win = windows_xml("C:\\程序 & tools\\app.exe", "C:\\我的数据", "S-1-5-1");
    assert!(win.contains("&amp;"));
    assert!(win.contains("LeastPrivilege"));
    assert!(win.contains("&quot;C:"));
    assert!(macos_plist("/path/<app>", "/home/test").contains("&lt;app&gt;"));
    assert!(linux_unit("/home/test/my app", "/tmp/%name").contains("/tmp/%%name"));
    assert!(linux_unit("/home/test/$app", "/tmp/${data}").contains("ExecStart=:\"/home/test/$app\""));
    assert!(checked("x\ny").is_err());
}

#[test]
fn xml_escapes_every_special_character_once() {
    assert_eq!(xml("a&b<c>d\"e'f"), "a&amp;b&lt;c&gt;d&quot;e&apos;f");
    assert_eq!(xml("&amp;"), "&amp;amp;");
    assert_eq!(xml("中文"), "中文");
}

#[test]
fn unit_words_escape_backslash_quote_and_percent() {
    assert_eq!(unit_quote("a\\b\"c%d"), "a\\\\b\\\"c%%d");
}

#[test]
fn checked_paths_refuse_line_breaks_and_nul() {
    assert_eq!(checked("/home/用户/app").unwrap(), "/home/用户/app");
    assert_eq!(checked("a\rb").unwrap_err(), "AUTOSTART_INVALID_PATH");
    assert!(checked("a\0b").is_err());
}

#[test]
fn templates_are_complete() {
    let unit = linux_unit("/a", "/b");
    assert_eq!(
        unit,
        "[Unit]\nDescription=xiangwriter remote task agent\nAfter=network-online.target\n[Service]\nType=simple\nExecStart=:\"/a\" --xiangwriter-agent \"/b\"\nKillMode=control-group\nTimeoutStopSec=10\n[Install]\nWantedBy=default.target\n"
    );
    let plist = macos_plist("/a", "/b");
    assert!(plist.contains("<string>com.xiangwriter.remote.agent</string>"));
    assert!(plist.contains("<string>/a</string><string>--xiangwriter-agent</string><string>/b</string>"));
    let task = windows_xml("C:\\a.exe", "C:\\d", "S-1-5-21");
    assert_eq!(task.matches("<UserId>S-1-5-21</UserId>").count(), 2);
    assert!(task.contains("<Command>C:\\a.exe</Command><Arguments>--xiangwriter-agent &quot;C:\\d&quot;</Arguments>"));
    assert_eq!(AGENT_NAME, "com.xiangwriter.remote.agent");
}

#[test]
fn user_sid_is_read_from_whoami_output() {
    assert_eq!(user_sid("\"host\\user\",\"S-1-5-21-1-2-3-1001\"\r\n").unwrap(), "S-1-5-21-1-2-3-1001");
    assert_eq!(user_sid("S-1-5-18").unwrap(), "S-1-5-18");
    assert_eq!(user_sid("\"host\\user\",\"S-1-5-x\"").unwrap_err(), "AUTOSTART_USER_ID_UNKNOWN");
    assert!(user_sid("").is_err());
    assert!(user_sid("\"a\",\"T-1-5\"").is_err());
}

#[test]
fn escaped_paths_hold_no_markup_characters() {
    let escaped = xml("<Exec attr=\"x\" other='y'>C:\\a&b</Exec>");
    assert!(!escaped.contains('<'));
    assert!(!escaped.contains('>'));
    assert!(!escaped.contains('"'));
    assert!(!escaped.contains('\''));
}

fn decode(s: &str) -> String {
    let mut out = String::new();
    let mut rest = s;
    while let Some(c) = rest.chars().next() {
        let entity = [("&amp;", '&'), ("&lt;", '<'), ("&gt;", '>'), ("&quot;", '"'), ("&apos;", '\'')]
            .into_iter()
            .find(|(e, _)| rest.starts_with(e));
        match entity {
            Some((e, ch)) => {
                out.push(ch);
                rest = &rest[e.len()..];
            }
            None => {
                out.push(c);
                rest = &rest[c.len_utf8()..];
            }
        }
    }
    out
}

#[test]
fn escaped_text_reads_back_and_plain_text_is_kept() {
    for s in ["C:\\a&b<c>\"d'e", "&amp;&lt;", "中文 plain", ""] {
        assert_eq!(decode(&xml(s)), s);
    }
    assert_eq!(xml("C:\\Program Files\\app.exe"), "C:\\Program Files\\app.exe");
}

#[test]
fn every_escaped_ampersand_begins_an_entity() {
    let escaped = xml("a&&b<'\"&amp;>");
    for (i, _) in escaped.match_indices('&') {
        let rest = &escaped[i..];
        assert!(["&amp;", "&lt;", "&gt;", "&quot;", "&apos;"].iter().any(|e| rest.starts_with(e)));
    }
}
