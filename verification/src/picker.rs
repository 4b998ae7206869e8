//! The model picker's content: the default row, a chosen model the catalog
//! does not list, the catalog's models grouped by provider in name order, a
//! status row; the selected row; and the list that a search query filters.

use vstd::prelude::*;
use crate::catalog::{
    catalog_models, default_item, find_model_by_id, lists_model,
    lemma_find_by_id_lists, model_item, status_item, unavailable_item, AppModel,
    CatalogModelChoice, CatalogModelItem, ChoiceView, ItemView, ModelCatalogState,
    ModelDescriptor, catalog_follow_default_item, same_text,
};
use crate::i18n::{translation, Language, Text};
use crate::text::{
    chars_eq, chars_less, chars_lt, lemma_chars_lt_irreflexive, lemma_chars_lt_total,
    lemma_chars_lt_transitive, to_chars, unicode_white_space,
};
use crate::search::search_matches;

verus! {

/// A titled section of the picker.
pub struct CatalogModelGroup {
    pub title: String,
    pub items: Vec<CatalogModelItem>,
}

/// Mathematical value of a picker section.
pub struct GroupView {
    pub title: Seq<char>,
    pub items: Seq<ItemView>,
}

impl View for CatalogModelGroup {
    type V = GroupView;

    open spec fn view(&self) -> GroupView {
        GroupView { title: self.title@, items: self.items@.map_values(|i: CatalogModelItem| i@) }
    }
}

/// The values of a list of sections.
pub open spec fn groups_view(groups: Seq<CatalogModelGroup>) -> Seq<GroupView> {
    groups.map_values(|g: CatalogModelGroup| g@)
}

/// The section a catalog model belongs to: its provider, else the harness
/// named `h`.
pub open spec fn provider_key(d: ModelDescriptor, h: Seq<char>) -> Seq<char> {
    match d.provider {
        Some(p) => p@,
        None => h,
    }
}

/// Whether some model of `models` belongs to the section `key`.
pub open spec fn has_key(models: Seq<ModelDescriptor>, key: Seq<char>, h: Seq<char>) -> bool {
    exists|k: int| 0 <= k < models.len() && provider_key(#[trigger] models[k], h) == key
}

/// Whether some section is titled `title`.
pub open spec fn has_title(groups: Seq<GroupView>, title: Seq<char>) -> bool {
    exists|a: int| 0 <= a < groups.len() && (#[trigger] groups[a]).title == title
}

/// The rows of the models of section `key`, in catalog order.
pub open spec fn items_with_key(
    models: Seq<ModelDescriptor>,
    key: Seq<char>,
    h: Seq<char>,
    l: Language,
) -> Seq<ItemView>
    decreases models.len(),
{
    if models.len() == 0 {
        Seq::empty()
    } else {
        let rest = items_with_key(models.drop_last(), key, h, l);
        if provider_key(models.last(), h) == key {
            rest.push(model_item(models.last(), l))
        } else {
            rest
        }
    }
}

/// `groups` are the provider sections of `models`: one per provider, in
/// ascending order of name, each holding the rows of its models in catalog
/// order.
/// The sections are kept in a vector sorted by name rather than in a
/// `BTreeMap` keyed by name: vstd specifies `BTreeMap` only for key types
/// whose order it models, and it does not model the order of `String`.
pub open spec fn provider_groups_ok(
    groups: Seq<GroupView>,
    models: Seq<ModelDescriptor>,
    h: Seq<char>,
    l: Language,
) -> bool {
    &&& forall|a: int, b: int|
        0 <= a < b < groups.len() ==> chars_lt(#[trigger] groups[a].title, #[trigger] groups[b].title)
    &&& forall|a: int|
        0 <= a < groups.len() ==> (#[trigger] groups[a]).items == items_with_key(
            models,
            groups[a].title,
            h,
            l,
        )
    &&& forall|a: int| 0 <= a < groups.len() ==> has_key(models, (#[trigger] groups[a]).title, h)
    &&& forall|k: int| 0 <= k < models.len() ==> has_title(groups, provider_key(#[trigger] models[k], h))
}

proof fn lemma_items_with_key_push(
    models: Seq<ModelDescriptor>,
    d: ModelDescriptor,
    key: Seq<char>,
    h: Seq<char>,
    l: Language,
)
    ensures
        items_with_key(models.push(d), key, h, l) == if provider_key(d, h) == key {
            items_with_key(models, key, h, l).push(model_item(d, l))
        } else {
            items_with_key(models, key, h, l)
        },
{
    assert(models.push(d).drop_last() =~= models);
}

proof fn lemma_items_without_key(models: Seq<ModelDescriptor>, key: Seq<char>, h: Seq<char>, l: Language)
    requires
        !has_key(models, key, h),
    ensures
        items_with_key(models, key, h, l) == Seq::<ItemView>::empty(),
    decreases models.len(),
{
    if models.len() > 0 {
        let last = models.len() - 1;
        if has_key(models.drop_last(), key, h) {
            let k = choose|k: int|
                0 <= k < models.drop_last().len() && provider_key(
                    #[trigger] models.drop_last()[k],
                    h,
                ) == key;
            assert(models[k] == models.drop_last()[k]);
        }
        assert(provider_key(models[last], h) != key);
        lemma_items_without_key(models.drop_last(), key, h, l);
    }
}

proof fn lemma_has_key_push(models: Seq<ModelDescriptor>, d: ModelDescriptor, key: Seq<char>, h: Seq<char>)
    ensures
        has_key(models.push(d), key, h) <==> (has_key(models, key, h) || provider_key(d, h) == key),
{
    let m2 = models.push(d);
    if has_key(models, key, h) {
        let k = choose|k: int| 0 <= k < models.len() && provider_key(#[trigger] models[k], h) == key;
        assert(m2[k] == models[k]);
    }
    if provider_key(d, h) == key {
        assert(m2[models.len() as int] == d);
    }
    if has_key(m2, key, h) {
        let k = choose|k: int| 0 <= k < m2.len() && provider_key(#[trigger] m2[k], h) == key;
        if k < models.len() {
            assert(m2[k] == models[k]);
        }
    }
}

/// The title of the section of `d`.
fn provider_title(d: &ModelDescriptor, h: &str) -> (s: String)
    ensures
        s@ == provider_key(*d, h@),
{
    match &d.provider {
        Some(p) => p.clone(),
        None => h.to_owned(),
    }
}

/// The first position whose title does not come before `key`.
fn find_slot(groups: &Vec<CatalogModelGroup>, key: &[char]) -> (j: usize)
    ensures
        j <= groups@.len(),
        forall|a: int| 0 <= a < j ==> chars_lt(groups@[a].title@, key@),
        j < groups@.len() ==> !chars_lt(groups@[j as int].title@, key@),
{
    let mut j: usize = 0;
    while j < groups.len()
        invariant
            j <= groups@.len(),
            forall|a: int| 0 <= a < j ==> chars_lt(groups@[a].title@, key@),
        decreases groups.len() - j,
    {
        if !chars_less(to_chars(groups[j].title.as_str()).as_slice(), key) {
            return j;
        }
        j = j + 1;
    }
    j
}

proof fn lemma_lt_ne(a: Seq<char>, b: Seq<char>)
    requires
        chars_lt(a, b),
    ensures
        a != b,
{
    if a == b {
        lemma_chars_lt_irreflexive(a);
    }
}

/// Adds the row of model `d` to the section `key`, opening that section in
/// its place when it is new.
fn add_to_groups(
    groups: &mut Vec<CatalogModelGroup>,
    key: String,
    item: CatalogModelItem,
    Ghost(prefix): Ghost<Seq<ModelDescriptor>>,
    Ghost(d): Ghost<ModelDescriptor>,
    Ghost(h): Ghost<Seq<char>>,
    l: Language,
)
    requires
        provider_groups_ok(groups_view(old(groups)@), prefix, h, l),
        key@ == provider_key(d, h),
        item@ == model_item(d, l),
    ensures
        provider_groups_ok(groups_view(final(groups)@), prefix.push(d), h, l),
{
    let ghost g0 = groups_view(groups@);
    let ghost k = key@;
    let ghost m2 = prefix.push(d);
    let kc = to_chars(key.as_str());
    let j = find_slot(groups, kc.as_slice());
    assert forall|a: int| 0 <= a < g0.len() implies #[trigger] g0[a].title == groups@[a].title@ by {}
    if j < groups.len() && chars_eq(to_chars(groups[j].title.as_str()).as_slice(), kc.as_slice()) {
        let mut g = groups.remove(j);
        g.items.push(item);
        groups.insert(j, g);
        proof {
            let g1 = groups_view(groups@);
            let ng = GroupView { title: k, items: g0[j as int].items.push(model_item(d, l)) };
            assert(g.items@.map_values(|i: CatalogModelItem| i@) =~= ng.items);
            assert(g1 =~= g0.update(j as int, ng));
            assert forall|a: int| 0 <= a < g1.len() && a != j implies (#[trigger] g1[a]).title != k by {
                if a < j {
                    lemma_lt_ne(g0[a].title, k);
                } else {
                    lemma_lt_ne(g0[j as int].title, g0[a].title);
                }
            }
            assert forall|a: int| 0 <= a < g1.len() implies (#[trigger] g1[a]).items == items_with_key(
                m2,
                g1[a].title,
                h,
                l,
            ) by {
                lemma_items_with_key_push(prefix, d, g1[a].title, h, l);
            }
            assert forall|a: int| 0 <= a < g1.len() implies has_key(m2, (#[trigger] g1[a]).title, h) by {
                lemma_has_key_push(prefix, d, g1[a].title, h);
            }
            assert forall|q: int| 0 <= q < m2.len() implies has_title(g1, provider_key(#[trigger] m2[q], h)) by {
                if q < prefix.len() {
                    assert(m2[q] == prefix[q]);
                    let a = choose|a: int| 0 <= a < g0.len() && (#[trigger] g0[a]).title == provider_key(prefix[q], h);
                    assert(g1[a].title == g0[a].title);
                } else {
                    assert(g1[j as int].title == k);
                }
            }
        }
    } else {
        proof {
            if j < g0.len() {
                lemma_chars_lt_total(g0[j as int].title, k);
            }
            assert forall|a: int| 0 <= a < g0.len() implies (#[trigger] g0[a]).title != k by {
                if a < j {
                    lemma_lt_ne(g0[a].title, k);
                } else {
                    if a > j {
                        lemma_chars_lt_transitive(k, g0[j as int].title, g0[a].title);
                    }
                    lemma_lt_ne(k, g0[a].title);
                }
            }
            if has_key(prefix, k, h) {
                let q = choose|q: int| 0 <= q < prefix.len() && provider_key(#[trigger] prefix[q], h) == k;
                assert(has_title(g0, provider_key(prefix[q], h)));
            }
            lemma_items_without_key(prefix, k, h, l);
        }
        let ghost ng = GroupView { title: k, items: seq![model_item(d, l)] };
        let mut items: Vec<CatalogModelItem> = Vec::new();
        items.push(item);
        let g = CatalogModelGroup { title: key, items };
        assert(g@.items =~= ng.items);
        groups.insert(j, g);
        proof {
            let g1 = groups_view(groups@);
            assert(g1 =~= g0.insert(j as int, ng));
            assert forall|a: int, b: int| 0 <= a < b < g1.len() implies chars_lt(
                #[trigger] g1[a].title,
                #[trigger] g1[b].title,
            ) by {
                if b < j {
                } else if b == j {
                } else if a < j {
                    assert(g1[b] == g0[b - 1]);
                    if b - 1 > j {
                        lemma_chars_lt_transitive(k, g0[j as int].title, g0[b - 1].title);
                    }
                    lemma_chars_lt_transitive(g0[a].title, k, g0[b - 1].title);
                } else if a == j {
                    assert(g1[b] == g0[b - 1]);
                    if b - 1 > j {
                        lemma_chars_lt_transitive(k, g0[j as int].title, g0[b - 1].title);
                    }
                } else {
                    assert(g1[a] == g0[a - 1]);
                    assert(g1[b] == g0[b - 1]);
                }
            }
            assert forall|a: int| 0 <= a < g1.len() implies (#[trigger] g1[a]).items == items_with_key(
                m2,
                g1[a].title,
                h,
                l,
            ) by {
                lemma_items_with_key_push(prefix, d, g1[a].title, h, l);
                if a > j {
                    assert(g1[a] == g0[a - 1]);
                }
                if a == j {
                    assert(seq![model_item(d, l)] =~= Seq::<ItemView>::empty().push(model_item(d, l)));
                }
            }
            assert forall|a: int| 0 <= a < g1.len() implies has_key(m2, (#[trigger] g1[a]).title, h) by {
                lemma_has_key_push(prefix, d, g1[a].title, h);
                if a > j {
                    assert(g1[a] == g0[a - 1]);
                }
            }
            assert forall|q: int| 0 <= q < m2.len() implies has_title(g1, provider_key(#[trigger] m2[q], h)) by {
                if q < prefix.len() {
                    assert(m2[q] == prefix[q]);
                    let a = choose|a: int| 0 <= a < g0.len() && (#[trigger] g0[a]).title == provider_key(prefix[q], h);
                    if a < j {
                        assert(g1[a] == g0[a]);
                    } else {
                        assert(g1[a + 1] == g0[a]);
                    }
                } else {
                    assert(g1[j as int].title == k);
                }
            }
        }
    }
}

/// The provider sections of `models`.
pub fn provider_groups(models: &[ModelDescriptor], harness: &str, l: Language) -> (groups: Vec<
    CatalogModelGroup,
>)
    ensures
        provider_groups_ok(groups_view(groups@), models@, harness@, l),
{
    let mut groups: Vec<CatalogModelGroup> = Vec::new();
    let mut i: usize = 0;
    assert(groups_view(groups@) =~= Seq::<GroupView>::empty());
    assert(models@.take(0) =~= Seq::<ModelDescriptor>::empty());
    while i < models.len()
        invariant
            i <= models@.len(),
            provider_groups_ok(groups_view(groups@), models@.take(i as int), harness@, l),
        decreases models.len() - i,
    {
        let key = provider_title(&models[i], harness);
        let item = CatalogModelItem::model(&models[i], l);
        assert(models@.take(i + 1) =~= models@.take(i as int).push(models@[i as int]));
        add_to_groups(&mut groups, key, item, Ghost(models@.take(i as int)), Ghost(models@[i as int]), Ghost(harness@), l);
        i = i + 1;
    }
    assert(models@.take(i as int) =~= models@);
    groups
}


/// A row position: the section, then the row within it.
#[derive(Clone, Copy, Debug, PartialEq, Eq, Structural)]
pub struct IndexPath {
    pub section: usize,
    pub row: usize,
}

/// The content of a model picker.
pub struct CatalogModelSelectContent {
    pub groups: Vec<CatalogModelGroup>,
    pub selected: CatalogModelChoice,
    pub locale: Language,
}

/// The optional display name of the chosen model, as a value.
pub open spec fn name_view(name: Option<String>) -> Option<Seq<char>> {
    match name {
        Some(n) => Some(n@),
        None => None,
    }
}

/// What the picker has selected: the chosen model, else the default.
pub open spec fn selected_choice(m: AppModel) -> ChoiceView {
    match m.model_override {
        Some(id) => ChoiceView::Model(id@),
        None => ChoiceView::FollowDefault,
    }
}

/// The sections before the providers: the default row, then the chosen
/// model when the catalog does not list it.
pub open spec fn lead_groups(m: AppModel) -> Seq<GroupView> {
    let l = m.language;
    let first = seq![GroupView { title: translation(l, Text::DefaultGroup), items: seq![default_item(m)] }];
    match m.model_override {
        Some(id) => if lists_model(catalog_models(m.model_catalog), id@) {
            first
        } else {
            first.push(
                GroupView {
                    title: translation(l, Text::CurrentSelection),
                    items: seq![unavailable_item(id@, name_view(m.model_override_name), m.model_catalog, l)],
                },
            )
        },
        None => first,
    }
}

/// What the status row says of the catalog, if anything.
pub open spec fn status_text(m: AppModel) -> Option<Seq<char>> {
    let l = m.language;
    match m.model_catalog {
        ModelCatalogState::Idle => if !m.selected_project {
            Some(translation(l, Text::SelectProjectToLoadCatalog))
        } else {
            Some(translation(l, Text::CatalogNotLoaded))
        },
        ModelCatalogState::Loading { .. } => Some(translation(l, Text::CatalogLoading)),
        ModelCatalogState::Empty => Some(translation(l, Text::CatalogEmpty)),
        ModelCatalogState::NotReady(message) => Some(message@),
        ModelCatalogState::Failed { message, .. } => Some(
            translation(l, Text::CatalogFailedPrefix) + message@,
        ),
        ModelCatalogState::Ready(_) => None,
    }
}

/// The sections after the providers: the status row, when there is one.
pub open spec fn tail_groups(m: AppModel) -> Seq<GroupView> {
    match status_text(m) {
        Some(t) => seq![GroupView { title: translation(m.language, Text::StatusGroup), items: seq![status_item(t)] }],
        None => Seq::empty(),
    }
}

/// The sections of the picker for `m`: `lead`, then the provider sections,
/// then `tail`.
pub open spec fn content_groups_ok(gs: Seq<GroupView>, m: AppModel) -> bool {
    let lead = lead_groups(m);
    let tail = tail_groups(m);
    &&& gs.len() >= lead.len() + tail.len()
    &&& gs.take(lead.len() as int) == lead
    &&& gs.skip(gs.len() - tail.len()) == tail
    &&& provider_groups_ok(
        gs.subrange(lead.len() as int, gs.len() - tail.len()),
        catalog_models(m.model_catalog),
        m.harness_name@,
        m.language,
    )
}

/// Whether `(s, r)` names a row of `gs`.
pub open spec fn is_position(gs: Seq<GroupView>, s: int, r: int) -> bool {
    0 <= s < gs.len() && 0 <= r < gs[s].items.len()
}

/// Whether a row is wanted: it selects `want`, or, without one, it is enabled.
pub open spec fn wanted(item: ItemView, want: Option<ChoiceView>) -> bool {
    match want {
        Some(c) => item.choice == c,
        None => !item.disabled,
    }
}

/// `ip` is the first wanted row of `gs`, sections in order, rows in order.
pub open spec fn first_wanted(gs: Seq<GroupView>, want: Option<ChoiceView>, ip: IndexPath) -> bool {
    &&& is_position(gs, ip.section as int, ip.row as int)
    &&& wanted(gs[ip.section as int].items[ip.row as int], want)
    &&& forall|s: int, r: int|
        #![trigger gs[s].items[r]]
        is_position(gs, s, r) && (s < ip.section || (s == ip.section && r < ip.row)) ==> !wanted(
            gs[s].items[r],
            want,
        )
}

/// No row of `gs` is wanted.
pub open spec fn none_wanted(gs: Seq<GroupView>, want: Option<ChoiceView>) -> bool {
    forall|s: int, r: int| #![trigger gs[s].items[r]] is_position(gs, s, r) ==> !wanted(gs[s].items[r], want)
}

/// The first wanted row of `groups`.
fn first_where(groups: &Vec<CatalogModelGroup>, want: Option<&CatalogModelChoice>) -> (r: Option<IndexPath>)
    ensures
        ({
            let w = match want {
                Some(c) => Some(c@),
                None => None,
            };
            match r {
                Some(ip) => first_wanted(groups_view(groups@), w, ip),
                None => none_wanted(groups_view(groups@), w),
            }
        }),
{
    let ghost gs = groups_view(groups@);
    let ghost w = match want {
        Some(c) => Some(c@),
        None => None,
    };
    let mut s: usize = 0;
    while s < groups.len()
        invariant
            s <= groups@.len(),
            gs == groups_view(groups@),
            w == (match want {
                Some(c) => Some(c@),
                None => None,
            }),
            forall|s2: int, r2: int|
                #![trigger gs[s2].items[r2]]
                is_position(gs, s2, r2) && s2 < s ==> !wanted(gs[s2].items[r2], w),
        decreases groups.len() - s,
    {
        let items = &groups[s].items;
        assert(gs[s as int].items == items@.map_values(|i: CatalogModelItem| i@));
        let mut r: usize = 0;
        while r < items.len()
            invariant
                s < groups@.len(),
                r <= items@.len(),
                items == groups@[s as int].items,
                gs == groups_view(groups@),
                gs[s as int].items == items@.map_values(|i: CatalogModelItem| i@),
                w == (match want {
                    Some(c) => Some(c@),
                    None => None,
                }),
                forall|s2: int, r2: int|
                    #![trigger gs[s2].items[r2]]
                    is_position(gs, s2, r2) && (s2 < s || (s2 == s && r2 < r)) ==> !wanted(
                        gs[s2].items[r2],
                        w,
                    ),
            decreases items.len() - r,
        {
            let hit = match want {
                Some(c) => items[r].choice.same(c),
                None => !items[r].disabled,
            };
            assert(gs[s as int].items[r as int] == items@[r as int]@);
            if hit {
                return Some(IndexPath { section: s, row: r });
            }
            r = r + 1;
        }
        s = s + 1;
    }
    None
}

/// The value of a picker's content.
pub struct ContentView {
    pub groups: Seq<GroupView>,
    pub selected: ChoiceView,
    pub locale: Language,
}

impl View for CatalogModelSelectContent {
    type V = ContentView;

    open spec fn view(&self) -> ContentView {
        ContentView { groups: groups_view(self.groups@), selected: self.selected@, locale: self.locale }
    }
}

impl CatalogModelSelectContent {
    /// The picker content for the application state `model`.
    pub fn from_model(model: &AppModel) -> (c: CatalogModelSelectContent)
        ensures
            content_groups_ok(c@.groups, *model),
            c@.selected == selected_choice(*model),
            c@.locale == model.language,
    {
        let locale = model.language;
        let selected = match &model.model_override {
            Some(id) => CatalogModelChoice::Model(id.clone()),
            None => CatalogModelChoice::FollowDefault,
        };
        let mut groups: Vec<CatalogModelGroup> = Vec::new();
        let mut first: Vec<CatalogModelItem> = Vec::new();
        first.push(catalog_follow_default_item(model));
        let g0 = CatalogModelGroup { title: locale.text(Text::DefaultGroup).to_owned(), items: first };
        assert(g0@.items =~= seq![default_item(*model)]);
        assert(g0@ == lead_groups(*model)[0]);
        groups.push(g0);
        assert(groups_view(groups@) =~= seq![lead_groups(*model)[0]]);
        let models = model.model_catalog.models();
        let ghost lead = lead_groups(*model);
        match &model.model_override {
            Some(id) => {
                let found = find_model_by_id(models, id.as_str());
                proof {
                    lemma_find_by_id_lists(models@, id@);
                }
                if found.is_none() {
                    let name = match &model.model_override_name {
                        Some(n) => Some(n.as_str()),
                        None => None,
                    };
                    let mut current: Vec<CatalogModelItem> = Vec::new();
                    current.push(CatalogModelItem::unavailable(id.as_str(), name, &model.model_catalog, locale));
                    let g1 = CatalogModelGroup {
                        title: locale.text(Text::CurrentSelection).to_owned(),
                        items: current,
                    };
                    assert(g1@.items =~= lead[1].items);
                    assert(g1@ == lead[1]);
                    let ghost before = groups_view(groups@);
                    groups.push(g1);
                    assert(groups_view(groups@) =~= before.push(lead[1]));
                }
            },
            None => {},
        }
        assert(groups_view(groups@) =~= lead);
        let mut providers = provider_groups(models, model.harness_name.as_str(), locale);
        let ghost middle = groups_view(providers@);
        groups.append(&mut providers);
        assert(groups_view(groups@) =~= lead + middle);
        let status: Option<String> = match &model.model_catalog {
            ModelCatalogState::Idle => if !model.selected_project {
                Some(locale.text(Text::SelectProjectToLoadCatalog).to_owned())
            } else {
                Some(locale.text(Text::CatalogNotLoaded).to_owned())
            },
            ModelCatalogState::Loading { .. } => Some(locale.text(Text::CatalogLoading).to_owned()),
            ModelCatalogState::Empty => Some(locale.text(Text::CatalogEmpty).to_owned()),
            ModelCatalogState::NotReady(message) => Some(message.clone()),
            ModelCatalogState::Failed { message, .. } => {
                let mut t = to_chars(locale.text(Text::CatalogFailedPrefix));
                crate::catalog::push_str(&mut t, message.as_str());
                Some(crate::text::from_chars(t.as_slice()))
            },
            ModelCatalogState::Ready(_) => None,
        };
        assert(status matches Some(t) ==> status_text(*model) == Some(t@));
        assert(status is None ==> status_text(*model) is None);
        let ghost tail = tail_groups(*model);
        match status {
            Some(t) => {
                let mut rows: Vec<CatalogModelItem> = Vec::new();
                rows.push(CatalogModelItem::status(t));
                let g2 = CatalogModelGroup { title: locale.text(Text::StatusGroup).to_owned(), items: rows };
                assert(g2@.items =~= tail[0].items);
                assert(g2@ == tail[0]);
                let ghost before = groups_view(groups@);
                groups.push(g2);
                assert(groups_view(groups@) =~= before.push(tail[0]));
            },
            None => {},
        }
        proof {
            let gs = groups_view(groups@);
            assert(gs =~= lead + middle + tail);
            assert(gs.take(lead.len() as int) =~= lead);
            assert(gs.skip(gs.len() - tail.len()) =~= tail);
            assert(gs.subrange(lead.len() as int, gs.len() - tail.len()) =~= middle);
        }
        CatalogModelSelectContent { groups, selected, locale }
    }

    /// Whether two contents show the same sections, selection and language.
    pub fn same(&self, other: &CatalogModelSelectContent) -> (b: bool)
        ensures
            b == (self@ == other@),
    {
        if !self.selected.same(&other.selected) || self.locale != other.locale {
            return false;
        }
        if self.groups.len() != other.groups.len() {
            assert(self@.groups.len() != other@.groups.len());
            return false;
        }
        let mut s: usize = 0;
        while s < self.groups.len()
            invariant
                s <= self.groups@.len(),
                self.groups@.len() == other.groups@.len(),
                forall|k: int| 0 <= k < s ==> (#[trigger] self.groups@[k])@ == other.groups@[k]@,
            decreases self.groups.len() - s,
        {
            if !self.groups[s].same(&other.groups[s]) {
                assert(self@.groups[s as int] != other@.groups[s as int]);
                return false;
            }
            s = s + 1;
        }
        assert(self@.groups =~= other@.groups);
        true
    }

    /// The position of the selected row, if the content shows it.
    pub fn selected_index(&self) -> (r: Option<IndexPath>)
        ensures
            match r {
                Some(ip) => first_wanted(self@.groups, Some(self@.selected), ip),
                None => none_wanted(self@.groups, Some(self@.selected)),
            },
    {
        first_where(&self.groups, Some(&self.selected))
    }
}


/// The rows of `items` that match the query `q`, in order.
pub open spec fn matching_items(items: Seq<ItemView>, q: Seq<char>) -> Seq<ItemView>
    decreases items.len(),
{
    if items.len() == 0 {
        Seq::empty()
    } else {
        let rest = matching_items(items.drop_last(), q);
        if search_matches(items.last().search_text, q) {
            rest.push(items.last())
        } else {
            rest
        }
    }
}

/// The sections of `gs` cut down to the rows that match `q`; a section left
/// without rows is dropped.
pub open spec fn filtered_groups(gs: Seq<GroupView>, q: Seq<char>) -> Seq<GroupView>
    decreases gs.len(),
{
    if gs.len() == 0 {
        Seq::empty()
    } else {
        let rest = filtered_groups(gs.drop_last(), q);
        let items = matching_items(gs.last().items, q);
        if items.len() > 0 {
            rest.push(GroupView { title: gs.last().title, items })
        } else {
            rest
        }
    }
}

/// Whether `q` is made of white space only.
pub open spec fn blank(q: Seq<char>) -> bool {
    forall|i: int| 0 <= i < q.len() ==> #[trigger] unicode_white_space(q[i])
}

/// Every section has a row.
pub open spec fn no_empty_group(gs: Seq<GroupView>) -> bool {
    forall|a: int| 0 <= a < gs.len() ==> (#[trigger] gs[a]).items.len() > 0
}

impl CatalogModelGroup {
    /// Whether two sections have the same title and the same rows.
    pub fn same(&self, other: &CatalogModelGroup) -> (b: bool)
        ensures
            b == (self@ == other@),
    {
        if !same_text(&self.title, &other.title) {
            return false;
        }
        if self.items.len() != other.items.len() {
            assert(self@.items.len() != other@.items.len());
            return false;
        }
        let mut r: usize = 0;
        while r < self.items.len()
            invariant
                r <= self.items@.len(),
                self.items@.len() == other.items@.len(),
                self.title@ == other.title@,
                forall|k: int| 0 <= k < r ==> (#[trigger] self.items@[k])@ == other.items@[k]@,
            decreases self.items.len() - r,
        {
            if !self.items[r].same(&other.items[r]) {
                assert(self@.items[r as int] != other@.items[r as int]);
                return false;
            }
            r = r + 1;
        }
        assert(self@.items =~= other@.items);
        true
    }

    /// A copy of this section.
    pub fn duplicate(&self) -> (c: CatalogModelGroup)
        ensures
            c@ == self@,
    {
        let mut items: Vec<CatalogModelItem> = Vec::new();
        let mut r: usize = 0;
        while r < self.items.len()
            invariant
                r <= self.items@.len(),
                items@.len() == r,
                forall|k: int| 0 <= k < r ==> (#[trigger] items@[k])@ == self.items@[k]@,
            decreases self.items.len() - r,
        {
            items.push(self.items[r].duplicate());
            r = r + 1;
        }
        let c = CatalogModelGroup { title: self.title.clone(), items };
        assert(c@.items =~= self@.items);
        c
    }
}

/// A copy of a list of sections.
fn duplicate_groups(groups: &Vec<CatalogModelGroup>) -> (r: Vec<CatalogModelGroup>)
    ensures
        groups_view(r@) == groups_view(groups@),
{
    let mut out: Vec<CatalogModelGroup> = Vec::new();
    let mut s: usize = 0;
    while s < groups.len()
        invariant
            s <= groups@.len(),
            out@.len() == s,
            forall|k: int| 0 <= k < s ==> (#[trigger] out@[k])@ == groups@[k]@,
        decreases groups.len() - s,
    {
        out.push(groups[s].duplicate());
        s = s + 1;
    }
    assert(groups_view(out@) =~= groups_view(groups@));
    out
}

/// The rows of one section that match `query`.
fn filter_items(items: &Vec<CatalogModelItem>, query: &str) -> (r: Vec<CatalogModelItem>)
    ensures
        r@.map_values(|i: CatalogModelItem| i@) == matching_items(
            items@.map_values(|i: CatalogModelItem| i@),
            query@,
        ),
        blank(query@) ==> r@.map_values(|i: CatalogModelItem| i@) == items@.map_values(
            |i: CatalogModelItem| i@,
        ),
{
    let ghost all = items@.map_values(|i: CatalogModelItem| i@);
    let mut out: Vec<CatalogModelItem> = Vec::new();
    let mut r: usize = 0;
    assert(all.take(0) =~= Seq::<ItemView>::empty());
    while r < items.len()
        invariant
            r <= items@.len(),
            all == items@.map_values(|i: CatalogModelItem| i@),
            out@.map_values(|i: CatalogModelItem| i@) == matching_items(all.take(r as int), query@),
            blank(query@) ==> out@.map_values(|i: CatalogModelItem| i@) == all.take(r as int),
        decreases items.len() - r,
    {
        assert(all.take(r + 1).drop_last() =~= all.take(r as int));
        assert(all.take(r + 1).last() == items@[r as int]@);
        if items[r].matches(query) {
            let ghost before = out@.map_values(|i: CatalogModelItem| i@);
            out.push(items[r].duplicate());
            assert(out@.map_values(|i: CatalogModelItem| i@) =~= before.push(items@[r as int]@));
        }
        proof {
            if blank(query@) {
                assert(all.take(r + 1) =~= all.take(r as int).push(items@[r as int]@));
            }
        }
        r = r + 1;
    }
    assert(all.take(r as int) =~= all);
    out
}

/// The sections of `groups` that keep rows matching `query`.
fn filter_groups(groups: &Vec<CatalogModelGroup>, query: &str) -> (r: Vec<CatalogModelGroup>)
    ensures
        groups_view(r@) == filtered_groups(groups_view(groups@), query@),
        blank(query@) && no_empty_group(groups_view(groups@)) ==> groups_view(r@) == groups_view(
            groups@,
        ),
{
    let ghost gs = groups_view(groups@);
    let mut out: Vec<CatalogModelGroup> = Vec::new();
    let mut s: usize = 0;
    assert(gs.take(0) =~= Seq::<GroupView>::empty());
    while s < groups.len()
        invariant
            s <= groups@.len(),
            gs == groups_view(groups@),
            groups_view(out@) == filtered_groups(gs.take(s as int), query@),
            blank(query@) && no_empty_group(gs) ==> groups_view(out@) == gs.take(s as int),
        decreases groups.len() - s,
    {
        assert(gs.take(s + 1).drop_last() =~= gs.take(s as int));
        assert(gs.take(s + 1).last() == groups@[s as int]@);
        let items = filter_items(&groups[s].items, query);
        if items.len() > 0 {
            let ghost before = groups_view(out@);
            let g = CatalogModelGroup { title: groups[s].title.clone(), items };
            out.push(g);
            assert(groups_view(out@) =~= before.push(g@));
        }
        proof {
            if blank(query@) && no_empty_group(gs) {
                assert(gs[s as int].items.len() > 0);
                assert(gs.take(s + 1) =~= gs.take(s as int).push(gs[s as int]));
            }
        }
        s = s + 1;
    }
    assert(gs.take(s as int) =~= gs);
    out
}

/// The picker list: its content, the sections that the query leaves, and
/// the query.
pub struct ModelPickerList {
    pub content: CatalogModelSelectContent,
    pub groups: Vec<CatalogModelGroup>,
    pub query: String,
}

impl ModelPickerList {
    /// A list that shows all of `content`, with no query.
    pub fn new(content: CatalogModelSelectContent) -> (l: ModelPickerList)
        ensures
            l.content@ == content@,
            groups_view(l.groups@) == content@.groups,
            l.query@ == Seq::<char>::empty(),
    {
        let groups = duplicate_groups(&content.groups);
        let query = String::new();
        ModelPickerList { groups, content, query }
    }

    /// Shows `content` instead, under the same query.
    pub fn replace_content(&mut self, content: CatalogModelSelectContent)
        ensures
            final(self).content@ == content@,
            final(self).query@ == old(self).query@,
            groups_view(final(self).groups@) == filtered_groups(content@.groups, old(self).query@),
    {
        self.content = content;
        self.filter();
    }

    /// Filters the content's sections by the query.
    pub fn filter(&mut self)
        ensures
            final(self).content@ == old(self).content@,
            final(self).query@ == old(self).query@,
            groups_view(final(self).groups@) == filtered_groups(old(self).content@.groups, old(self).query@),
            blank(old(self).query@) && no_empty_group(old(self).content@.groups) ==> groups_view(
                final(self).groups@,
            ) == old(self).content@.groups,
    {
        self.groups = filter_groups(&self.content.groups, self.query.as_str());
    }

    /// Searches for `query`: keeps it and filters the sections by it.
    pub fn perform_search(&mut self, query: &str)
        ensures
            final(self).content@ == old(self).content@,
            final(self).query@ == query@,
            groups_view(final(self).groups@) == filtered_groups(old(self).content@.groups, query@),
            blank(query@) && no_empty_group(old(self).content@.groups) ==> groups_view(
                final(self).groups@,
            ) == old(self).content@.groups,
    {
        self.query = query.to_owned();
        self.filter();
    }

    /// The number of sections shown.
    pub fn sections_count(&self) -> (n: usize)
        ensures
            n == self.groups@.len(),
    {
        self.groups.len()
    }

    /// The number of rows shown in `section`; none past the last section.
    pub fn items_count(&self, section: usize) -> (n: usize)
        ensures
            n == (if section < self.groups@.len() {
                self.groups@[section as int].items@.len()
            } else {
                0
            }),
    {
        if section < self.groups.len() {
            self.groups[section].items.len()
        } else {
            0
        }
    }

    /// The row shown at `index`, if there is one.
    pub fn item(&self, index: IndexPath) -> (r: Option<&CatalogModelItem>)
        ensures
            match r {
                Some(it) => is_position(groups_view(self.groups@), index.section as int, index.row as int)
                    && it@ == groups_view(self.groups@)[index.section as int].items[index.row as int],
                None => !is_position(groups_view(self.groups@), index.section as int, index.row as int),
            },
    {
        if index.section < self.groups.len() && index.row < self.groups[index.section].items.len() {
            Some(&self.groups[index.section].items[index.row])
        } else {
            None
        }
    }

    /// Brings the list up to date with `content`: unchanged content leaves
    /// the list as it is (`None`); new content replaces the old one under the
    /// same query, and the row to highlight comes back.
    pub fn sync(&mut self, content: CatalogModelSelectContent) -> (r: Option<Option<IndexPath>>)
        ensures
            old(self).content@ == content@ ==> r is None && final(self).content@ == old(self).content@
                && groups_view(final(self).groups@) == groups_view(old(self).groups@)
                && final(self).query@ == old(self).query@,
            old(self).content@ != content@ ==> r is Some && final(self).content@ == content@
                && final(self).query@ == old(self).query@ && groups_view(final(self).groups@)
                == filtered_groups(content@.groups, old(self).query@),
            r matches Some(sel) ==> ({
                let gs = groups_view(final(self).groups@);
                let want = Some(final(self).content@.selected);
                (sel matches Some(ip) && first_wanted(gs, want, ip)) || (none_wanted(gs, want)
                    && match sel {
                    Some(ip) => first_wanted(gs, None, ip),
                    None => none_wanted(gs, None),
                })
            }),
    {
        if self.content.same(&content) {
            return None;
        }
        self.replace_content(content);
        Some(self.selected_index())
    }

    /// What confirming the row at `index` selects: `None` when there is no
    /// such row, it is disabled or it only reports a status; else the
    /// default (`Some(None)`) or a model (`Some(Some(id))`).
    pub fn confirm(&self, index: IndexPath) -> (r: Option<Option<String>>)
        ensures
            ({
                let gs = groups_view(self.groups@);
                let s = index.section as int;
                let k = index.row as int;
                match r {
                    None => !is_position(gs, s, k) || gs[s].items[k].disabled
                        || gs[s].items[k].choice is Status,
                    Some(None) => is_position(gs, s, k) && !gs[s].items[k].disabled
                        && gs[s].items[k].choice == ChoiceView::FollowDefault,
                    Some(Some(id)) => is_position(gs, s, k) && !gs[s].items[k].disabled
                        && gs[s].items[k].choice == ChoiceView::Model(id@),
                }
            }),
    {
        match self.item(index) {
            Some(item) => {
                if item.disabled {
                    return None;
                }
                match &item.choice {
                    CatalogModelChoice::FollowDefault => Some(None),
                    CatalogModelChoice::Model(id) => Some(Some(id.clone())),
                    CatalogModelChoice::Status(_) => None,
                }
            },
            None => None,
        }
    }

    /// The row to highlight: the selected one if it is shown, else the first
    /// enabled row.
    pub fn selected_index(&self) -> (r: Option<IndexPath>)
        ensures
            ({
                let gs = groups_view(self.groups@);
                let sel = Some(self.content@.selected);
                (r matches Some(ip) && first_wanted(gs, sel, ip)) || (none_wanted(gs, sel) && match r {
                    Some(ip) => first_wanted(gs, None, ip),
                    None => none_wanted(gs, None),
                })
            }),
    {
        match first_where(&self.groups, Some(&self.content.selected)) {
            Some(ip) => Some(ip),
            None => first_where(&self.groups, None),
        }
    }
}


proof fn lemma_items_with_key_has(
    models: Seq<ModelDescriptor>,
    key: Seq<char>,
    h: Seq<char>,
    l: Language,
    k: int,
)
    requires
        0 <= k < models.len(),
        provider_key(models[k], h) == key,
    ensures
        exists|r: int|
            0 <= r < items_with_key(models, key, h, l).len() && (#[trigger] items_with_key(
                models,
                key,
                h,
                l,
            )[r]) == model_item(models[k], l),
    decreases models.len(),
{
    let items = items_with_key(models, key, h, l);
    let rest = items_with_key(models.drop_last(), key, h, l);
    if k == models.len() - 1 {
        assert(items[rest.len() as int] == model_item(models[k], l));
    } else {
        assert(models.drop_last()[k] == models[k]);
        lemma_items_with_key_has(models.drop_last(), key, h, l, k);
        let r = choose|r: int| 0 <= r < rest.len() && (#[trigger] rest[r]) == model_item(models[k], l);
        assert(items[r] == rest[r]);
    }
}

/// Every section of a picker's content has a row.
pub proof fn lemma_content_groups_have_rows(gs: Seq<GroupView>, m: AppModel)
    requires
        content_groups_ok(gs, m),
    ensures
        no_empty_group(gs),
{
    let lead = lead_groups(m);
    let tail = tail_groups(m);
    let mid = gs.subrange(lead.len() as int, gs.len() - tail.len());
    let models = catalog_models(m.model_catalog);
    assert forall|a: int| 0 <= a < gs.len() implies (#[trigger] gs[a]).items.len() > 0 by {
        if a < lead.len() {
            assert(gs[a] == gs.take(lead.len() as int)[a]);
        } else if a >= gs.len() - tail.len() {
            assert(gs[a] == gs.skip(gs.len() - tail.len())[a - (gs.len() - tail.len())]);
        } else {
            let b = a - lead.len();
            assert(gs[a] == mid[b]);
            assert(has_key(models, mid[b].title, m.harness_name@));
            let k = choose|k: int|
                0 <= k < models.len() && provider_key(#[trigger] models[k], m.harness_name@)
                    == mid[b].title;
            lemma_items_with_key_has(models, mid[b].title, m.harness_name@, m.language, k);
        }
    }
}

/// The content of a picker always shows the selected row: the default row
/// when no model is chosen, else the chosen model, from the catalog or as
/// the current selection.
pub proof fn lemma_content_shows_selected(gs: Seq<GroupView>, m: AppModel)
    requires
        content_groups_ok(gs, m),
    ensures
        !none_wanted(gs, Some(selected_choice(m))),
{
    let lead = lead_groups(m);
    let tail = tail_groups(m);
    let mid = gs.subrange(lead.len() as int, gs.len() - tail.len());
    let models = catalog_models(m.model_catalog);
    let sel = Some(selected_choice(m));
    assert(gs[0] == gs.take(lead.len() as int)[0]);
    match m.model_override {
        None => {
            assert(wanted(gs[0].items[0], sel));
        },
        Some(id) => {
            if lists_model(models, id@) {
                let k = choose|k: int| 0 <= k < models.len() && (#[trigger] models[k]).id@ == id@;
                let key = provider_key(models[k], m.harness_name@);
                assert(has_title(mid, provider_key(models[k], m.harness_name@)));
                let a = choose|a: int| 0 <= a < mid.len() && (#[trigger] mid[a]).title == key;
                lemma_items_with_key_has(models, key, m.harness_name@, m.language, k);
                let items = items_with_key(models, key, m.harness_name@, m.language);
                let r = choose|r: int| 0 <= r < items.len() && (#[trigger] items[r]) == model_item(models[k], m.language);
                let s = lead.len() + a;
                assert(gs[s] == mid[a]);
                assert(wanted(gs[s].items[r], sel));
            } else {
                assert(gs[1] == gs.take(lead.len() as int)[1]);
                assert(wanted(gs[1].items[0], sel));
            }
        },
    }
}


/// Section titles strictly ascend.
pub open spec fn titles_ascending(g: Seq<GroupView>) -> bool {
    forall|a: int, b: int| 0 <= a < b < g.len() ==> chars_lt(#[trigger] g[a].title, #[trigger] g[b].title)
}

proof fn lemma_ascending_titles_equal(g1: Seq<GroupView>, g2: Seq<GroupView>)
    requires
        titles_ascending(g1),
        titles_ascending(g2),
        forall|a: int| 0 <= a < g1.len() ==> has_title(g2, (#[trigger] g1[a]).title),
        forall|b: int| 0 <= b < g2.len() ==> has_title(g1, (#[trigger] g2[b]).title),
    ensures
        g1.len() == g2.len(),
        forall|a: int| 0 <= a < g1.len() ==> (#[trigger] g1[a]).title == g2[a].title,
    decreases g1.len(),
{
    if g1.len() == 0 {
        if g2.len() > 0 {
            assert(has_title(g1, g2[0].title));
        }
    } else {
        assert(has_title(g2, g1[0].title));
        let j = choose|j: int| 0 <= j < g2.len() && (#[trigger] g2[j]).title == g1[0].title;
        assert(has_title(g1, g2[0].title));
        let i = choose|i: int| 0 <= i < g1.len() && (#[trigger] g1[i]).title == g2[0].title;
        if j > 0 {
            assert(chars_lt(g2[0].title, g2[j].title));
            if i == 0 {
                lemma_chars_lt_irreflexive(g1[0].title);
            } else {
                assert(chars_lt(g1[0].title, g1[i].title));
                lemma_chars_lt_transitive(g1[0].title, g1[i].title, g1[0].title);
                lemma_chars_lt_irreflexive(g1[0].title);
            }
        }
        assert(j == 0);
        let t1 = g1.drop_first();
        let t2 = g2.drop_first();
        assert forall|a: int| 0 <= a < t1.len() implies has_title(t2, (#[trigger] t1[a]).title) by {
            assert(t1[a] == g1[a + 1]);
            assert(has_title(g2, g1[a + 1].title));
            let b = choose|b: int| 0 <= b < g2.len() && (#[trigger] g2[b]).title == g1[a + 1].title;
            assert(chars_lt(g1[0].title, g1[a + 1].title));
            if b == 0 {
                lemma_chars_lt_irreflexive(g1[0].title);
            }
            assert(t2[b - 1] == g2[b]);
        }
        assert forall|b: int| 0 <= b < t2.len() implies has_title(t1, (#[trigger] t2[b]).title) by {
            assert(t2[b] == g2[b + 1]);
            assert(has_title(g1, g2[b + 1].title));
            let a = choose|a: int| 0 <= a < g1.len() && (#[trigger] g1[a]).title == g2[b + 1].title;
            assert(chars_lt(g2[0].title, g2[b + 1].title));
            if a == 0 {
                lemma_chars_lt_irreflexive(g2[0].title);
            }
            assert(t1[a - 1] == g1[a]);
        }
        assert forall|a: int, b: int| 0 <= a < b < t1.len() implies chars_lt(#[trigger] t1[a].title, #[trigger] t1[b].title) by {
            assert(t1[a] == g1[a + 1]);
            assert(t1[b] == g1[b + 1]);
        }
        assert forall|a: int, b: int| 0 <= a < b < t2.len() implies chars_lt(#[trigger] t2[a].title, #[trigger] t2[b].title) by {
            assert(t2[a] == g2[a + 1]);
            assert(t2[b] == g2[b + 1]);
        }
        lemma_ascending_titles_equal(t1, t2);
        assert forall|a: int| 0 <= a < g1.len() implies (#[trigger] g1[a]).title == g2[a].title by {
            if a > 0 {
                assert(g1[a] == t1[a - 1]);
                assert(g2[a] == t2[a - 1]);
            }
        }
    }
}

/// The provider sections are determined by the catalog: two lists that both
/// are the provider sections of the same models are the same list.
pub proof fn lemma_provider_groups_unique(
    g1: Seq<GroupView>,
    g2: Seq<GroupView>,
    models: Seq<ModelDescriptor>,
    h: Seq<char>,
    l: Language,
)
    requires
        provider_groups_ok(g1, models, h, l),
        provider_groups_ok(g2, models, h, l),
    ensures
        g1 == g2,
{
    assert forall|a: int| 0 <= a < g1.len() implies has_title(g2, (#[trigger] g1[a]).title) by {
        assert(has_key(models, g1[a].title, h));
        let k = choose|k: int| 0 <= k < models.len() && provider_key(#[trigger] models[k], h) == g1[a].title;
    }
    assert forall|b: int| 0 <= b < g2.len() implies has_title(g1, (#[trigger] g2[b]).title) by {
        assert(has_key(models, g2[b].title, h));
        let k = choose|k: int| 0 <= k < models.len() && provider_key(#[trigger] models[k], h) == g2[b].title;
    }
    lemma_ascending_titles_equal(g1, g2);
    assert forall|a: int| 0 <= a < g1.len() implies #[trigger] g1[a] == g2[a] by {
        assert(g1[a].items == items_with_key(models, g1[a].title, h, l));
        assert(g2[a].items == items_with_key(models, g2[a].title, h, l));
    }
    assert(g1 =~= g2);
}


proof fn lemma_matching_items_idempotent(items: Seq<ItemView>, q: Seq<char>)
    ensures
        matching_items(matching_items(items, q), q) == matching_items(items, q),
    decreases items.len(),
{
    if items.len() > 0 {
        let rest = matching_items(items.drop_last(), q);
        lemma_matching_items_idempotent(items.drop_last(), q);
        if search_matches(items.last().search_text, q) {
            let m = rest.push(items.last());
            assert(m.drop_last() =~= rest);
            assert(m.last() == items.last());
        }
    }
}

/// Filtering is idempotent: the rows and sections that a query keeps are
/// kept again, unchanged, by the same query.
pub proof fn lemma_filter_idempotent(gs: Seq<GroupView>, q: Seq<char>)
    ensures
        filtered_groups(filtered_groups(gs, q), q) == filtered_groups(gs, q),
    decreases gs.len(),
{
    if gs.len() > 0 {
        let rest = filtered_groups(gs.drop_last(), q);
        lemma_filter_idempotent(gs.drop_last(), q);
        let items = matching_items(gs.last().items, q);
        if items.len() > 0 {
            lemma_matching_items_idempotent(gs.last().items, q);
            let g = GroupView { title: gs.last().title, items };
            let f = rest.push(g);
            assert(f.drop_last() =~= rest);
            assert(f.last() == g);
        }
    }
}

} // verus!
