//! The languages of the window.

use vstd::prelude::*;

use crate::text;
use crate::text::{contains_text, starts_with, to_lower};

verus! {

#[derive(Debug, Clone, Copy, PartialEq, Eq, Structural, Default)]
pub enum UiLanguage {
    #[default]
    En,
    ZhCn,
}

impl UiLanguage {
    pub open spec fn name(self) -> Seq<char> {
        match self {
            UiLanguage::En => "English"@,
            UiLanguage::ZhCn => "简体中文"@,
        }
    }

    pub open spec fn title(self) -> Seq<char> {
        match self {
            UiLanguage::En => "DG-Lab Audio Link"@,
            UiLanguage::ZhCn => "DG-Lab 音频联动"@,
        }
    }

    /// The one of two texts that is in this language.
    pub open spec fn choice(self, en: Seq<char>, zh_cn: Seq<char>) -> Seq<char> {
        match self {
            UiLanguage::En => en,
            UiLanguage::ZhCn => zh_cn,
        }
    }

    pub fn label(self) -> (r: &'static str)
        ensures
            r@ == self.name(),
    {
        match self {
            UiLanguage::En => "English",
            UiLanguage::ZhCn => "简体中文",
        }
    }

    pub fn app_title(self) -> (r: &'static str)
        ensures
            r@ == self.title(),
    {
        match self {
            UiLanguage::En => "DG-Lab Audio Link",
            UiLanguage::ZhCn => "DG-Lab 音频联动",
        }
    }

    pub fn all() -> (r: [UiLanguage; 2])
        ensures
            r@ == seq![UiLanguage::En, UiLanguage::ZhCn],
    {
        [UiLanguage::En, UiLanguage::ZhCn]
    }
}

/// The language for a locale: Chinese for one of `zh` or in simplified script,
/// English for any other and for none.
pub open spec fn locale_language(locale: Option<Seq<char>>) -> UiLanguage {
    match locale {
        Some(name) => if text::has_prefix(text::lower(name), "zh"@) || text::occurs(
            text::lower(name),
            "hans"@,
        ) {
            UiLanguage::ZhCn
        } else {
            UiLanguage::En
        },
        None => UiLanguage::En,
    }
}

pub fn language_for_locale(locale: Option<&str>) -> (r: UiLanguage)
    ensures
        r == locale_language(text::some_text(locale)),
{
    match locale {
        Some(name) => {
            let low = to_lower(name);
            if starts_with(low.as_str(), "zh") || contains_text(low.as_str(), "hans") {
                UiLanguage::ZhCn
            } else {
                UiLanguage::En
            }
        },
        None => UiLanguage::En,
    }
}

/// `sys_locale::get_locale`: the locale that the system is set to, if it can be
/// found. What comes back depends on the machine, so nothing is claimed of it.
#[verifier::external_body]
fn system_locale() -> (r: Option<String>) {
    sys_locale::get_locale()
}

/// The language for the system's locale.
pub fn detect_system_language() -> (r: UiLanguage)
    ensures
        exists|locale: Option<Seq<char>>| r == #[trigger] locale_language(locale),
{
    match system_locale() {
        Some(name) => language_for_locale(Some(name.as_str())),
        None => language_for_locale(None),
    }
}

/// The one of two texts that is in the language.
pub fn tr<'a>(lang: UiLanguage, en: &'a str, zh_cn: &'a str) -> (r: &'a str)
    ensures
        r@ == lang.choice(en@, zh_cn@),
{
    match lang {
        UiLanguage::En => en,
        UiLanguage::ZhCn => zh_cn,
    }
}

/// Each language gets the text in that language.
pub proof fn law_languages_get_their_texts(en: Seq<char>, zh_cn: Seq<char>)
    ensures
        UiLanguage::En.choice(en, zh_cn) == en,
        UiLanguage::ZhCn.choice(en, zh_cn) == zh_cn,
{
}

/// A locale is Chinese if its name begins with `zh` or has `hans` in it, in any
/// case; any other, and none, is English.
pub proof fn law_chinese_locales(name: Seq<char>)
    ensures
        locale_language(Some(name)) == UiLanguage::ZhCn <==> {
            ||| name.len() >= 2 && (name[0] == 'z' || name[0] == 'Z') && (name[1] == 'h' || name[1]
                == 'H')
            ||| exists|i: int|
                {
                    &&& 0 <= i <= name.len() - 4
                    &&& #[trigger] name[i] == 'h' || name[i] == 'H'
                    &&& name[i + 1] == 'a' || name[i + 1] == 'A'
                    &&& name[i + 2] == 'n' || name[i + 2] == 'N'
                    &&& name[i + 3] == 's' || name[i + 3] == 'S'
                }
        },
        locale_language(None) == UiLanguage::En,
{
    reveal_strlit("zh");
    reveal_strlit("hans");
    let low = text::lower(name);
    let p = "hans"@;
    if name.len() >= 2 {
        assert(low.take(2)[0] == low[0] && low.take(2)[1] == low[1]);
        if (name[0] == 'z' || name[0] == 'Z') && (name[1] == 'h' || name[1] == 'H') {
            assert(low.take(2) =~= "zh"@);
            assert(low.subrange(0, 2) =~= "zh"@);
        }
        assert(low.subrange(0, 2)[0] == low[0] && low.subrange(0, 2)[1] == low[1]);
    }
    if text::occurs(low, p) {
        let i = choose|i: int| text::stands_at(low, p, i);
        let part = low.subrange(i, i + 4);
        assert(part == p);
        assert(part[0] == low[i] && part[1] == low[i + 1] && part[2] == low[i + 2] && part[3]
            == low[i + 3]);
        assert(name[i] == 'h' || name[i] == 'H');
    }
    assert forall|i: int|
        {
            &&& 0 <= i <= name.len() - 4
            &&& #[trigger] name[i] == 'h' || name[i] == 'H'
            &&& name[i + 1] == 'a' || name[i + 1] == 'A'
            &&& name[i + 2] == 'n' || name[i + 2] == 'N'
            &&& name[i + 3] == 's' || name[i + 3] == 'S'
        } implies text::stands_at(low, p, i) by {
        assert(low.subrange(i, i + 4) =~= p);
    }
}

} // verus!
