//! The interface language and the translation of the messages that the tunnel
//! runtime reports.

use vstd::prelude::*;
use crate::text::{lower_seq, starts_with, chars_of, string_from, owned, push_str};

verus! {

/// The language of the user interface.
#[derive(Debug, Clone, Copy, PartialEq, Eq, Structural)]
pub enum Language {
    Zh,
    En,
}

/// The locale names a Chinese locale: it begins with `zh`, in any ASCII case.
pub open spec fn is_chinese_locale(locale: Seq<char>) -> bool {
    starts_with(lower_seq(locale), "zh"@)
}

/// A runtime message in the interface language. English messages are shown as they
/// are; in Chinese the known messages are translated, and the known prefixes of
/// connection and forwarding failures are replaced, keeping the cause.
pub open spec fn translated(language: Language, message: Seq<char>) -> Seq<char> {
    if language == Language::En {
        message
    } else if message == "Tunnel is already running"@ || message == "Tunnel is already running or connecting"@ {
        "隧道已经在运行或连接中"@
    } else if message == "Tunnel operation was cancelled"@ {
        "隧道操作已取消"@
    } else if message == "Max reconnect attempts reached"@ {
        "已达到最大重连次数"@
    } else if message == "Session disconnected"@ {
        "SSH 会话已断开"@
    } else if message
        == "The SSH server only supports legacy ssh-rsa (SHA-1). Enable RSA-SHA2 on the server or update its SSH software."@ {
        "SSH 服务器只支持已弃用的 ssh-rsa（SHA-1）。请在服务器启用 RSA-SHA2，或升级 SSH 软件。"@
    } else if starts_with(message, "SSH connection failed:"@) {
        "SSH 连接失败："@ + message.subrange("SSH connection failed:"@.len() as int, message.len() as int)
    } else if starts_with(message, "Failed to start forwarding listeners:"@) {
        "启动转发监听失败："@ + message.subrange(
            "Failed to start forwarding listeners:"@.len() as int,
            message.len() as int,
        )
    } else {
        message
    }
}

/// The locale of the system, from `sys_locale::get_locale`; it depends on the
/// machine, so nothing is stated of it.
#[verifier::external_body]
pub(crate) fn system_locale() -> (r: Option<String>) {
    sys_locale::get_locale()
}

fn text_eq(a: &str, b: &str) -> (r: bool)
    ensures
        r == (a@ == b@),
{
    owned(a) == owned(b)
}

/// Whether `s` begins with `prefix`.
pub fn has_prefix(s: &str, prefix: &str) -> (r: bool)
    ensures
        r == starts_with(s@, prefix@),
{
    let v = chars_of(s);
    let p = chars_of(prefix);
    if p.len() > v.len() {
        return false;
    }
    let mut i: usize = 0;
    while i < p.len()
        invariant
            i <= p@.len() <= v@.len(),
            p@ == prefix@,
            v@ == s@,
            forall|j: int| 0 <= j < i ==> v@[j] == p@[j],
        decreases p@.len() - i,
    {
        if v[i] != p[i] {
            assert(v@.subrange(0, p@.len() as int)[i as int] != p@[i as int]);
            return false;
        }
        i += 1;
    }
    assert(v@.subrange(0, p@.len() as int) =~= p@);
    true
}

/// `replacement` followed by what comes after `prefix` in `s`.
fn replace_prefix(s: &str, prefix: &str, replacement: &str) -> (r: String)
    requires
        starts_with(s@, prefix@),
    ensures
        r@ == replacement@ + s@.subrange(prefix@.len() as int, s@.len() as int),
{
    let v = chars_of(s);
    let p = chars_of(prefix);
    let rest = string_from(&v, p.len(), v.len());
    let mut r = owned(replacement);
    push_str(&mut r, rest.as_str());
    r
}

impl Language {
    /// The language for a locale name: Chinese for Chinese locales, else English.
    pub fn from_locale(locale: &str) -> (r: Language)
        ensures
            r == (if is_chinese_locale(locale@) {
                Language::Zh
            } else {
                Language::En
            }),
    {
        let v = chars_of(locale);
        if v.len() >= 2 && (v[0] == 'z' || v[0] == 'Z') && (v[1] == 'h' || v[1] == 'H') {
            proof {
                reveal_strlit("zh");
                assert(lower_seq(locale@).subrange(0, 2) =~= "zh"@);
            }
            Language::Zh
        } else {
            proof {
                reveal_strlit("zh");
                if is_chinese_locale(locale@) {
                    let l = lower_seq(locale@);
                    assert(l.subrange(0, 2)[0] == l[0]);
                    assert(l.subrange(0, 2)[1] == l[1]);
                    assert(l[0] == 'z');
                    assert(l[1] == 'h');
                    assert(v@[0] == 'z' || v@[0] == 'Z');
                }
            }
            Language::En
        }
    }

    /// The language chosen for the interface: an explicit override where one is set,
    /// else the system's locale (English where it is unknown).
    pub fn system_with(override_locale: Option<String>) -> (r: Language)
        ensures
            override_locale is Some ==> r == (if is_chinese_locale(override_locale->0@) {
                Language::Zh
            } else {
                Language::En
            }),
    {
        match override_locale {
            Some(locale) => Language::from_locale(locale.as_str()),
            None => match system_locale() {
                Some(locale) => Language::from_locale(locale.as_str()),
                None => Language::from_locale(""),
            },
        }
    }

    /// One of two texts, by language.
    pub fn pick(self, zh: &'static str, en: &'static str) -> (r: &'static str)
        ensures
            r == (if self == Language::Zh {
                zh
            } else {
                en
            }),
    {
        if self == Language::Zh {
            zh
        } else {
            en
        }
    }

    /// A message of the tunnel runtime in this language.
    pub fn runtime_message(self, message: &str) -> (r: String)
        ensures
            r@ == translated(self, message@),
    {
        if self == Language::En {
            return owned(message);
        }
        if text_eq(message, "Tunnel is already running") || text_eq(
            message,
            "Tunnel is already running or connecting",
        ) {
            owned("隧道已经在运行或连接中")
        } else if text_eq(message, "Tunnel operation was cancelled") {
            owned("隧道操作已取消")
        } else if text_eq(message, "Max reconnect attempts reached") {
            owned("已达到最大重连次数")
        } else if text_eq(message, "Session disconnected") {
            owned("SSH 会话已断开")
        } else if text_eq(
            message,
            "The SSH server only supports legacy ssh-rsa (SHA-1). Enable RSA-SHA2 on the server or update its SSH software.",
        ) {
            owned("SSH 服务器只支持已弃用的 ssh-rsa（SHA-1）。请在服务器启用 RSA-SHA2，或升级 SSH 软件。")
        } else if has_prefix(message, "SSH connection failed:") {
            replace_prefix(message, "SSH connection failed:", "SSH 连接失败：")
        } else if has_prefix(message, "Failed to start forwarding listeners:") {
            replace_prefix(message, "Failed to start forwarding listeners:", "启动转发监听失败：")
        } else {
            owned(message)
        }
    }
}

} // verus!
