//! Input schemes: full pinyin, the four shuangpin layouts, Dachen zhuyin, and
//! the Wubi 86 shape code. The value of the `[general] scheme` setting.
//!
//! A scheme is a setting, not a mode: switching between Chinese and English is
//! always a boolean, and changing the scheme never changes another scheme's
//! keys. This module only says which scheme is used; wiring it into an engine
//! (and, for shape codes, finding the code table file) is the shell's job.
use vstd::prelude::*;
use crate::text::{is_white, same_chars, string_of, trim, trimmed, trimmed_end, trimmed_start};

verus! {

/// The four shuangpin key layouts.
#[derive(Debug, Clone, Copy, PartialEq, Eq, Structural)]
pub enum ShuangpinScheme {
    /// 小鹤双拼.
    Xiaohe,
    /// 自然码.
    Ziranma,
    /// 微软双拼.
    Microsoft,
    /// 搜狗双拼.
    Sogou,
}

/// Input scheme.
#[derive(Debug, Clone, Copy, PartialEq, Eq, Structural)]
pub enum Scheme {
    /// Full pinyin.
    Pinyin,
    /// Shuangpin, in one of the four layouts.
    Shuangpin(ShuangpinScheme),
    /// Dachen zhuyin.
    Zhuyin,
    /// Wubi 86 (a shape code).
    Wubi86,
}

/// The settings-file spelling of a shuangpin layout.
pub open spec fn shuangpin_key(s: ShuangpinScheme) -> Seq<char> {
    match s {
        ShuangpinScheme::Xiaohe => "xiaohe"@,
        ShuangpinScheme::Ziranma => "ziranma"@,
        ShuangpinScheme::Microsoft => "microsoft"@,
        ShuangpinScheme::Sogou => "sogou"@,
    }
}

/// The layout a settings-file spelling names, if any.
pub open spec fn shuangpin_named(key: Seq<char>) -> Option<ShuangpinScheme> {
    if key == "xiaohe"@ {
        Some(ShuangpinScheme::Xiaohe)
    } else if key == "ziranma"@ {
        Some(ShuangpinScheme::Ziranma)
    } else if key == "microsoft"@ {
        Some(ShuangpinScheme::Microsoft)
    } else if key == "sogou"@ {
        Some(ShuangpinScheme::Sogou)
    } else {
        None
    }
}

/// The settings-file spelling of a scheme.
pub open spec fn scheme_key(s: Scheme) -> Seq<char> {
    match s {
        Scheme::Pinyin => "pinyin"@,
        Scheme::Shuangpin(layout) => shuangpin_key(layout),
        Scheme::Zhuyin => "zhuyin"@,
        Scheme::Wubi86 => "wubi86"@,
    }
}

/// The scheme a (trimmed) settings-file spelling names, if any. The empty
/// spelling is full pinyin; `wubi` is an early hand-written shorthand.
pub open spec fn scheme_named(key: Seq<char>) -> Option<Scheme> {
    if key.len() == 0 || key == "pinyin"@ {
        Some(Scheme::Pinyin)
    } else if key == "zhuyin"@ {
        Some(Scheme::Zhuyin)
    } else if key == "wubi"@ || key == "wubi86"@ {
        Some(Scheme::Wubi86)
    } else {
        match shuangpin_named(key) {
            Some(layout) => Some(Scheme::Shuangpin(layout)),
            None => None,
        }
    }
}

/// The message an unknown spelling is refused with.
pub open spec fn unknown_scheme_message(key: Seq<char>) -> Seq<char> {
    "unknown input scheme: "@ + key
}

impl ShuangpinScheme {
    /// The settings-file spelling.
    pub fn key(self) -> (r: &'static str)
        ensures
            r@ == shuangpin_key(self),
    {
        match self {
            ShuangpinScheme::Xiaohe => "xiaohe",
            ShuangpinScheme::Ziranma => "ziranma",
            ShuangpinScheme::Microsoft => "microsoft",
            ShuangpinScheme::Sogou => "sogou",
        }
    }

    /// The name shown in the interface.
    pub fn label(self) -> (r: &'static str)
        ensures
            r@ == match self {
                ShuangpinScheme::Xiaohe => "小鹤双拼"@,
                ShuangpinScheme::Ziranma => "自然码"@,
                ShuangpinScheme::Microsoft => "微软双拼"@,
                ShuangpinScheme::Sogou => "搜狗双拼"@,
            },
    {
        match self {
            ShuangpinScheme::Xiaohe => "小鹤双拼",
            ShuangpinScheme::Ziranma => "自然码",
            ShuangpinScheme::Microsoft => "微软双拼",
            ShuangpinScheme::Sogou => "搜狗双拼",
        }
    }

    /// Reads an exact settings-file spelling.
    pub fn named(key: &Vec<char>) -> (r: Option<ShuangpinScheme>)
        ensures
            r == shuangpin_named(key@),
    {
        if same_chars(key, "xiaohe") {
            Some(ShuangpinScheme::Xiaohe)
        } else if same_chars(key, "ziranma") {
            Some(ShuangpinScheme::Ziranma)
        } else if same_chars(key, "microsoft") {
            Some(ShuangpinScheme::Microsoft)
        } else if same_chars(key, "sogou") {
            Some(ShuangpinScheme::Sogou)
        } else {
            None
        }
    }
}

impl Scheme {
    /// Every scheme, in the order the settings page and the status bar list them.
    pub fn all() -> (r: [Scheme; 7])
        ensures
            r@ == seq![
                Scheme::Pinyin,
                Scheme::Shuangpin(ShuangpinScheme::Xiaohe),
                Scheme::Shuangpin(ShuangpinScheme::Ziranma),
                Scheme::Shuangpin(ShuangpinScheme::Microsoft),
                Scheme::Shuangpin(ShuangpinScheme::Sogou),
                Scheme::Zhuyin,
                Scheme::Wubi86,
            ],
    {
        let r = [
            Scheme::Pinyin,
            Scheme::Shuangpin(ShuangpinScheme::Xiaohe),
            Scheme::Shuangpin(ShuangpinScheme::Ziranma),
            Scheme::Shuangpin(ShuangpinScheme::Microsoft),
            Scheme::Shuangpin(ShuangpinScheme::Sogou),
            Scheme::Zhuyin,
            Scheme::Wubi86,
        ];
        assert(r@ =~= seq![
            Scheme::Pinyin,
            Scheme::Shuangpin(ShuangpinScheme::Xiaohe),
            Scheme::Shuangpin(ShuangpinScheme::Ziranma),
            Scheme::Shuangpin(ShuangpinScheme::Microsoft),
            Scheme::Shuangpin(ShuangpinScheme::Sogou),
            Scheme::Zhuyin,
            Scheme::Wubi86,
        ]);
        r
    }

    /// The settings-file spelling.
    pub fn key(self) -> (r: &'static str)
        ensures
            r@ == scheme_key(self),
    {
        match self {
            Scheme::Pinyin => "pinyin",
            Scheme::Shuangpin(layout) => layout.key(),
            Scheme::Zhuyin => "zhuyin",
            Scheme::Wubi86 => "wubi86",
        }
    }

    /// The name shown in the interface.
    pub fn label(self) -> (r: &'static str)
        ensures
            r@ == match self {
                Scheme::Pinyin => "全拼"@,
                Scheme::Shuangpin(ShuangpinScheme::Xiaohe) => "小鹤双拼"@,
                Scheme::Shuangpin(ShuangpinScheme::Ziranma) => "自然码"@,
                Scheme::Shuangpin(ShuangpinScheme::Microsoft) => "微软双拼"@,
                Scheme::Shuangpin(ShuangpinScheme::Sogou) => "搜狗双拼"@,
                Scheme::Zhuyin => "大千注音"@,
                Scheme::Wubi86 => "五笔（86）"@,
            },
    {
        match self {
            Scheme::Pinyin => "全拼",
            Scheme::Shuangpin(layout) => layout.label(),
            Scheme::Zhuyin => "大千注音",
            Scheme::Wubi86 => "五笔（86）",
        }
    }

    /// Whether the scheme is a shape code: its candidates come from a code table
    /// and take no part in the pinyin machinery.
    pub fn is_code(self) -> (r: bool)
        ensures
            r == (self == Scheme::Wubi86),
    {
        match self {
            Scheme::Wubi86 => true,
            _ => false,
        }
    }

    /// The shuangpin layout, when the scheme is shuangpin.
    pub fn shuangpin(self) -> (r: Option<ShuangpinScheme>)
        ensures
            r == match self {
                Scheme::Shuangpin(layout) => Some(layout),
                _ => None,
            },
    {
        match self {
            Scheme::Shuangpin(layout) => Some(layout),
            _ => None,
        }
    }

    /// Reads a settings value: surrounding whitespace is ignored, the empty
    /// value is full pinyin, an unknown spelling is refused with a message
    /// (the settings layer then falls back to full pinyin and warns).
    pub fn parse(text: &str) -> (r: Result<Scheme, String>)
        ensures
            match scheme_named(trimmed(text@)) {
                Some(scheme) => r == Ok::<Scheme, String>(scheme),
                None => r is Err && r->Err_0@ == unknown_scheme_message(trimmed(text@)),
            },
    {
        let key = trim(text);
        if key.len() == 0 || same_chars(&key, "pinyin") {
            Ok(Scheme::Pinyin)
        } else if same_chars(&key, "zhuyin") {
            Ok(Scheme::Zhuyin)
        } else if same_chars(&key, "wubi") || same_chars(&key, "wubi86") {
            Ok(Scheme::Wubi86)
        } else {
            match ShuangpinScheme::named(&key) {
                Some(layout) => Ok(Scheme::Shuangpin(layout)),
                None => {
                    let mut message = "unknown input scheme: ".to_owned();
                    let spelled = string_of(&key);
                    message.append(spelled.as_str());
                    Err(message)
                },
            }
        }
    }
}

impl Default for Scheme {
    fn default() -> (r: Scheme)
        ensures
            r == Scheme::Pinyin,
    {
        Scheme::Pinyin
    }
}

impl std::str::FromStr for Scheme {
    type Err = String;

    /// The same reading as [`Scheme::parse`].
    fn from_str(text: &str) -> (r: Result<Scheme, String>)
        ensures
            match scheme_named(trimmed(text@)) {
                Some(scheme) => r == Ok::<Scheme, String>(scheme),
                None => r is Err && r->Err_0@ == unknown_scheme_message(trimmed(text@)),
            },
    {
        Scheme::parse(text)
    }
}

/// A spelling made of characters none of which is whitespace is left as it is
/// by trimming.
proof fn lemma_trim_keeps_solid(s: Seq<char>)
    requires
        forall|i: int| 0 <= i < s.len() ==> !is_white(#[trigger] s[i]),
    ensures
        trimmed(s) == s,
{
    assert(trimmed_start(s) == s);
    assert(trimmed_end(s) == s);
}

/// Reading back the spelling a scheme is written with gives the same scheme.
pub proof fn lemma_parse_key_round_trip(s: Scheme)
    ensures
        scheme_named(trimmed(scheme_key(s))) == Some(s),
{
    reveal_strlit("pinyin");
    reveal_strlit("zhuyin");
    reveal_strlit("wubi");
    reveal_strlit("wubi86");
    reveal_strlit("xiaohe");
    reveal_strlit("ziranma");
    reveal_strlit("microsoft");
    reveal_strlit("sogou");
    let k = scheme_key(s);
    assert forall|i: int| 0 <= i < k.len() implies !is_white(#[trigger] k[i]) by {
        assert(0x61 <= (k[i] as u32) <= 0x7a || 0x30 <= (k[i] as u32) <= 0x39);
    }
    lemma_trim_keeps_solid(k);
    assert(k.len() > 0);
    match s {
        Scheme::Pinyin => {},
        Scheme::Zhuyin => {
            assert(k != "pinyin"@);
        },
        Scheme::Wubi86 => {
            assert(k != "pinyin"@);
            assert(k != "zhuyin"@);
        },
        Scheme::Shuangpin(layout) => {
            assert(k != "pinyin"@);
            assert(k != "zhuyin"@);
            assert(k != "wubi"@);
            assert(k != "wubi86"@);
            match layout {
                ShuangpinScheme::Xiaohe => {},
                ShuangpinScheme::Ziranma => {
                    assert(k != "xiaohe"@);
                },
                ShuangpinScheme::Microsoft => {
                    assert(k != "xiaohe"@);
                    assert(k != "ziranma"@);
                },
                ShuangpinScheme::Sogou => {
                    assert(k != "xiaohe"@);
                    assert(k != "ziranma"@);
                    assert(k != "microsoft"@);
                },
            }
        },
    }
}

} // verus!
