//! The font families offered in the font settings.

use vstd::prelude::*;
use crate::i18n::{translation, Language, Text};
use crate::text::{chars_eq, from_chars, push_all, starts_with, to_chars};

verus! {

/// The fonts chosen for reading and for code (`None`: the default font).
pub struct FontSettings {
    pub reading: Option<String>,
    pub code: Option<String>,
}

/// An entry of the font menus.
pub struct FontChoice {
    pub family: String,
    pub label: String,
    pub available: bool,
}

/// Mathematical value of a font choice.
pub struct FontChoiceView {
    pub family: Seq<char>,
    pub label: Seq<char>,
    pub available: bool,
}

impl View for FontChoice {
    type V = FontChoiceView;

    open spec fn view(&self) -> FontChoiceView {
        FontChoiceView { family: self.family@, label: self.label@, available: self.available }
    }
}

/// Mathematical values of font choices.
pub open spec fn choice_views(v: Seq<FontChoice>) -> Seq<FontChoiceView> {
    v.map_values(|c: FontChoice| c@)
}

/// Hidden system families (their names start with `.`) are left out, except
/// the system interface font.
pub open spec fn offered(family: Seq<char>) -> bool {
    !has_dot_prefix(family) || family == ".SystemUIFont"@
}

/// The family name starts with `.`.
pub open spec fn has_dot_prefix(family: Seq<char>) -> bool {
    family.len() > 0 && family[0] == '.'
}

/// The menu text of an installed family: the system font gets a name of its
/// own, some Chinese families show their Chinese name first.
pub open spec fn family_label(family: Seq<char>, l: Language) -> Seq<char> {
    if family == ".SystemUIFont"@ {
        translation(l, Text::SystemUiFont)
    } else if family == "DengXian"@ {
        "等线 · DengXian"@
    } else if family == "SimSun"@ {
        "宋体 · SimSun"@
    } else if family == "NSimSun"@ {
        "新宋体 · NSimSun"@
    } else if family == "Songti SC"@ {
        "宋体（简体） · Songti SC"@
    } else if family == "Songti TC"@ {
        "宋体（繁体） · Songti TC"@
    } else {
        family
    }
}

/// The installed families that are offered, in the order given.
pub open spec fn installed_choices(names: Seq<Seq<char>>, l: Language) -> Seq<FontChoiceView>
    decreases names.len(),
{
    if names.len() == 0 {
        Seq::empty()
    } else if offered(names.last()) {
        installed_choices(names.drop_last(), l).push(
            FontChoiceView {
                family: names.last(),
                label: family_label(names.last(), l),
                available: true,
            },
        )
    } else {
        installed_choices(names.drop_last(), l)
    }
}

/// A chosen family that is not installed is still listed, marked unavailable.
pub open spec fn with_chosen(
    choices: Seq<FontChoiceView>,
    family: Option<Seq<char>>,
    l: Language,
) -> Seq<FontChoiceView> {
    match family {
        Some(f) => if exists|i: int| 0 <= i < choices.len() && #[trigger] choices[i].family == f {
            choices
        } else {
            choices.push(
                FontChoiceView {
                    family: f,
                    label: f + translation(l, Text::FontUnavailableSuffix),
                    available: false,
                },
            )
        },
        None => choices,
    }
}

/// Mathematical value of an optional string.
pub open spec fn opt_view(o: Option<String>) -> Option<Seq<char>> {
    match o {
        Some(s) => Some(s@),
        None => None,
    }
}

/// Mathematical values of a list of strings.
pub open spec fn string_views(v: Seq<String>) -> Seq<Seq<char>> {
    v.map_values(|s: String| s@)
}

/// The font menu: offered installed families, then the chosen reading and
/// code fonts that are missing.
pub open spec fn font_menu(
    names: Seq<Seq<char>>,
    settings: FontSettings,
    l: Language,
) -> Seq<FontChoiceView> {
    with_chosen(
        with_chosen(installed_choices(names, l), opt_view(settings.reading), l),
        opt_view(settings.code),
        l,
    )
}

/// The label of an installed family.
fn family_label_exec(family: &str, locale: Language) -> (r: String)
    ensures
        r@ == family_label(family@, locale),
{
    let f = to_chars(family);
    if chars_eq(f.as_slice(), to_chars(".SystemUIFont").as_slice()) {
        locale.text(Text::SystemUiFont).to_owned()
    } else if chars_eq(f.as_slice(), to_chars("DengXian").as_slice()) {
        "等线 · DengXian".to_owned()
    } else if chars_eq(f.as_slice(), to_chars("SimSun").as_slice()) {
        "宋体 · SimSun".to_owned()
    } else if chars_eq(f.as_slice(), to_chars("NSimSun").as_slice()) {
        "新宋体 · NSimSun".to_owned()
    } else if chars_eq(f.as_slice(), to_chars("Songti SC").as_slice()) {
        "宋体（简体） · Songti SC".to_owned()
    } else if chars_eq(f.as_slice(), to_chars("Songti TC").as_slice()) {
        "宋体（繁体） · Songti TC".to_owned()
    } else {
        family.to_owned()
    }
}

/// Adds a chosen family that is missing from the menu.
#[verifier::loop_isolation(false)]
fn add_chosen(choices: &mut Vec<FontChoice>, family: &Option<String>, locale: Language)
    ensures
        choice_views(final(choices)@) == with_chosen(
            choice_views(old(choices)@),
            opt_view(*family),
            locale,
        ),
{
    if let Some(f) = family {
        let fc = to_chars(f.as_str());
        let mut i: usize = 0;
        while i < choices.len()
            invariant
                i <= choices@.len(),
                fc@ == f@,
                forall|k: int| 0 <= k < i ==> choice_views(choices@)[k].family != f@,
            decreases choices.len() - i,
        {
            if chars_eq(to_chars(choices[i].family.as_str()).as_slice(), fc.as_slice()) {
                assert(choice_views(choices@)[i as int].family == f@);
                assert(exists|k: int|
                    0 <= k < choice_views(choices@).len() && #[trigger] choice_views(choices@)[k].family
                        == f@);
                return;
            }
            i = i + 1;
        }
        let mut label = fc;
        push_all(&mut label, to_chars(locale.text(Text::FontUnavailableSuffix)).as_slice());
        let ghost before = choice_views(choices@);
        choices.push(FontChoice { family: f.clone(), label: from_chars(label.as_slice()), available: false });
        assert(choice_views(choices@) =~= before.push(
            FontChoiceView {
                family: f@,
                label: f@ + translation(locale, Text::FontUnavailableSuffix),
                available: false,
            },
        ));
    }
}

/// The font menu from the families installed on the system.
pub fn font_choices(names: &Vec<String>, settings: &FontSettings, locale: Language) -> (r: Vec<
    FontChoice,
>)
    ensures
        choice_views(r@) == font_menu(string_views(names@), *settings, locale),
{
    let mut choices: Vec<FontChoice> = Vec::new();
    let dot = to_chars(".");
    let mut i: usize = 0;
    proof {
        reveal_strlit(".");
    }
    while i < names.len()
        invariant
            i <= names@.len(),
            dot@ == seq!['.'],
            choice_views(choices@) == installed_choices(string_views(names@).take(i as int), locale),
        decreases names.len() - i,
    {
        let name = &names[i];
        let n = to_chars(name.as_str());
        assert(string_views(names@).take(i + 1).drop_last() =~= string_views(names@).take(i as int));
        assert(string_views(names@).take(i + 1).last() == name@);
        let hidden = starts_with(n.as_slice(), dot.as_slice());
        assert(hidden == has_dot_prefix(n@)) by {
            if n@.len() > 0 {
                assert(n@.subrange(0, 1) =~= seq![n@[0]]);
                if n@[0] == '.' {
                    assert(n@.subrange(0, 1) =~= seq!['.']);
                }
                if hidden {
                    assert(n@.subrange(0, 1)[0] == seq!['.'][0]);
                }
            }
        }
        if !hidden || chars_eq(n.as_slice(), to_chars(".SystemUIFont").as_slice()) {
            let label = family_label_exec(name.as_str(), locale);
            let ghost before = choice_views(choices@);
            choices.push(FontChoice { family: name.clone(), label, available: true });
            assert(choice_views(choices@) =~= before.push(
                FontChoiceView { family: name@, label: family_label(name@, locale), available: true },
            ));
        }
        i = i + 1;
    }
    assert(string_views(names@).take(names@.len() as int) =~= string_views(names@));
    add_chosen(&mut choices, &settings.reading, locale);
    add_chosen(&mut choices, &settings.code, locale);
    choices
}

/// Whether the menu lists `family`.
pub open spec fn lists(menu: Seq<FontChoiceView>, family: Seq<char>) -> bool {
    exists|i: int| 0 <= i < menu.len() && #[trigger] menu[i].family == family
}

/// Every chosen font, for reading and for code, is in the menu; and an entry
/// is marked available only for an installed family, so a chosen family that
/// is not installed is listed as unavailable.
pub proof fn lemma_chosen_fonts_are_listed(names: Seq<Seq<char>>, settings: FontSettings, l: Language)
    ensures
        ({
            let menu = font_menu(names, settings, l);
            &&& settings.reading matches Some(f) ==> lists(menu, f@)
            &&& settings.code matches Some(f) ==> lists(menu, f@)
            &&& forall|i: int| 0 <= i < menu.len() && (#[trigger] menu[i]).available ==> names.contains(
                menu[i].family,
            )
        }),
{
    let base = installed_choices(names, l);
    lemma_installed_available(names, l);
    let first = with_chosen(base, opt_view(settings.reading), l);
    lemma_with_chosen(base, opt_view(settings.reading), l);
    lemma_with_chosen(first, opt_view(settings.code), l);
    let menu = font_menu(names, settings, l);
    if let Some(f) = settings.reading {
        let i = choose|i: int| 0 <= i < first.len() && #[trigger] first[i].family == f@;
        assert(menu[i] == first[i]);
    }
}

proof fn lemma_installed_available(names: Seq<Seq<char>>, l: Language)
    ensures
        forall|i: int|
            0 <= i < installed_choices(names, l).len() && (#[trigger] installed_choices(names, l)[i]).available
                ==> names.contains(installed_choices(names, l)[i].family),
    decreases names.len(),
{
    if names.len() > 0 {
        let init = names.drop_last();
        lemma_installed_available(init, l);
        let prev = installed_choices(init, l);
        let cur = installed_choices(names, l);
        assert forall|i: int| 0 <= i < cur.len() && (#[trigger] cur[i]).available implies names.contains(
            cur[i].family,
        ) by {
            if i < prev.len() {
                assert(cur[i] == prev[i]);
                let k = choose|k: int| 0 <= k < init.len() && init[k] == prev[i].family;
                assert(names[k] == init[k]);
            } else {
                assert(cur[i].family == names.last());
                assert(names[names.len() - 1] == names.last());
            }
        }
    }
}

proof fn lemma_with_chosen(choices: Seq<FontChoiceView>, family: Option<Seq<char>>, l: Language)
    ensures
        ({
            let out = with_chosen(choices, family, l);
            &&& choices.len() <= out.len()
            &&& forall|i: int| 0 <= i < choices.len() ==> out[i] == choices[i]
            &&& family matches Some(f) ==> lists(out, f)
            &&& forall|i: int| choices.len() <= i < out.len() ==> !(#[trigger] out[i]).available
        }),
{
    if let Some(f) = family {
        let out = with_chosen(choices, family, l);
        if !lists(choices, f) {
            assert(out[choices.len() as int].family == f);
        }
    }
}

/// Every installed family that is offered is in the menu as available, and
/// no hidden system family (a name starting with `.`, other than the system
/// interface font) is offered as available.
pub proof fn lemma_installed_fonts_are_offered(names: Seq<Seq<char>>, settings: FontSettings, l: Language)
    ensures
        ({
            let menu = font_menu(names, settings, l);
            &&& forall|k: int|
                0 <= k < names.len() && offered(#[trigger] names[k]) ==> exists|i: int|
                    0 <= i < menu.len() && menu[i].family == names[k] && menu[i].available
            &&& forall|i: int|
                0 <= i < menu.len() && (#[trigger] menu[i]).available ==> offered(menu[i].family)
        }),
{
    let base = installed_choices(names, l);
    lemma_installed_offered(names, l);
    let first = with_chosen(base, opt_view(settings.reading), l);
    lemma_with_chosen(base, opt_view(settings.reading), l);
    lemma_with_chosen(first, opt_view(settings.code), l);
    let menu = font_menu(names, settings, l);
    assert forall|k: int| 0 <= k < names.len() && offered(#[trigger] names[k]) implies exists|i: int|
        0 <= i < menu.len() && menu[i].family == names[k] && menu[i].available by {
        let i = choose|i: int| 0 <= i < base.len() && base[i].family == names[k] && base[i].available;
        assert(menu[i] == first[i]);
    }
    assert forall|i: int| 0 <= i < menu.len() && (#[trigger] menu[i]).available implies offered(
        menu[i].family,
    ) by {
        if i < first.len() {
            assert(menu[i] == first[i]);
            if i < base.len() {
                assert(first[i] == base[i]);
            }
        }
    }
}

proof fn lemma_installed_offered(names: Seq<Seq<char>>, l: Language)
    ensures
        forall|k: int|
            0 <= k < names.len() && offered(#[trigger] names[k]) ==> exists|i: int|
                0 <= i < installed_choices(names, l).len() && installed_choices(names, l)[i].family
                    == names[k] && installed_choices(names, l)[i].available,
        forall|i: int|
            0 <= i < installed_choices(names, l).len() ==> offered(
                (#[trigger] installed_choices(names, l)[i]).family,
            ) && installed_choices(names, l)[i].available,
    decreases names.len(),
{
    if names.len() > 0 {
        let init = names.drop_last();
        lemma_installed_offered(init, l);
        let prev = installed_choices(init, l);
        let cur = installed_choices(names, l);
        assert forall|k: int| 0 <= k < names.len() && offered(#[trigger] names[k]) implies exists|i: int|
            0 <= i < cur.len() && cur[i].family == names[k] && cur[i].available by {
            if k < names.len() - 1 {
                assert(names[k] == init[k]);
                let i = choose|i: int|
                    0 <= i < prev.len() && prev[i].family == init[k] && prev[i].available;
                assert(cur[i] == prev[i]);
            } else {
                assert(cur[prev.len() as int].family == names.last());
            }
        }
        assert forall|i: int| 0 <= i < cur.len() implies offered((#[trigger] cur[i]).family)
            && cur[i].available by {
            if i < prev.len() {
                assert(cur[i] == prev[i]);
            } else {
                assert(offered(names.last()));
            }
        }
    }
}

} // verus!
