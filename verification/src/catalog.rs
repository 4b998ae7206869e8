//! The model picker: catalog items, their grouping by provider, the default
//! entry, filtering by a search query, and the selected row.

use vstd::prelude::*;
use crate::i18n::{translation, Language, Text};
use crate::search::{ascii_search, matches_search, search_matches};
use crate::text::{chars_eq, from_chars, is_ascii, push_all, to_chars, unicode_white_space};

verus! {

/// Whether a model can be used.
pub enum ModelAvailability {
    Available,
    /// Not verified yet; it can still be chosen.
    Unknown,
    Unavailable { reason: String },
}

/// A model of a catalog.
pub struct ModelDescriptor {
    pub id: String,
    pub display_name: String,
    pub provider: Option<String>,
    pub availability: ModelAvailability,
    pub is_default: bool,
}

/// The state of the model catalog of the selected harness.
pub enum ModelCatalogState {
    Idle,
    Loading { models: Vec<ModelDescriptor> },
    Ready(Vec<ModelDescriptor>),
    Empty,
    NotReady(String),
    Failed { message: String, models: Vec<ModelDescriptor> },
}

/// What the model picker reads from the application.
pub struct AppModel {
    pub language: Language,
    /// The name of the selected harness, as the agent domain prints it.
    pub harness_name: String,
    /// A project is selected.
    pub selected_project: bool,
    /// The default model of the selected provider profile, if it names one.
    pub profile_model: Option<String>,
    pub model_override: Option<String>,
    pub model_override_name: Option<String>,
    pub model_catalog: ModelCatalogState,
}

/// What a picker row selects.
pub enum CatalogModelChoice {
    FollowDefault,
    Model(String),
    Status(String),
}

/// Mathematical value of a picker choice.
pub enum ChoiceView {
    FollowDefault,
    Model(Seq<char>),
    Status(Seq<char>),
}

impl View for CatalogModelChoice {
    type V = ChoiceView;

    open spec fn view(&self) -> ChoiceView {
        match self {
            CatalogModelChoice::FollowDefault => ChoiceView::FollowDefault,
            CatalogModelChoice::Model(s) => ChoiceView::Model(s@),
            CatalogModelChoice::Status(s) => ChoiceView::Status(s@),
        }
    }
}

impl CatalogModelChoice {
    /// A copy of this choice.
    pub fn duplicate(&self) -> (c: CatalogModelChoice)
        ensures
            c@ == self@,
    {
        match self {
            CatalogModelChoice::FollowDefault => CatalogModelChoice::FollowDefault,
            CatalogModelChoice::Model(s) => CatalogModelChoice::Model(s.clone()),
            CatalogModelChoice::Status(s) => CatalogModelChoice::Status(s.clone()),
        }
    }

    /// Whether two choices select the same thing.
    pub fn same(&self, other: &CatalogModelChoice) -> (b: bool)
        ensures
            b == (self@ == other@),
    {
        match (self, other) {
            (CatalogModelChoice::FollowDefault, CatalogModelChoice::FollowDefault) => true,
            (CatalogModelChoice::Model(a), CatalogModelChoice::Model(b)) => chars_eq(
                to_chars(a.as_str()).as_slice(),
                to_chars(b.as_str()).as_slice(),
            ),
            (CatalogModelChoice::Status(a), CatalogModelChoice::Status(b)) => chars_eq(
                to_chars(a.as_str()).as_slice(),
                to_chars(b.as_str()).as_slice(),
            ),
            _ => false,
        }
    }
}

/// A row of the model picker.
pub struct CatalogModelItem {
    pub choice: CatalogModelChoice,
    pub title: String,
    pub trigger_title: String,
    pub detail: String,
    pub search_text: String,
    pub disabled: bool,
}

/// Mathematical value of a picker row.
pub struct ItemView {
    pub choice: ChoiceView,
    pub title: Seq<char>,
    pub trigger_title: Seq<char>,
    pub detail: Seq<char>,
    pub search_text: Seq<char>,
    pub disabled: bool,
}

impl View for CatalogModelItem {
    type V = ItemView;

    open spec fn view(&self) -> ItemView {
        ItemView {
            choice: self.choice@,
            title: self.title@,
            trigger_title: self.trigger_title@,
            detail: self.detail@,
            search_text: self.search_text@,
            disabled: self.disabled,
        }
    }
}

/// `" · "`, the separator of picker texts.
pub open spec fn dot() -> Seq<char> {
    " · "@
}

/// A model can be chosen unless it is known to be unavailable.
pub open spec fn selectable(a: ModelAvailability) -> bool {
    !(a is Unavailable)
}

/// The text shown on the picker's button for a model: provider and name.
pub open spec fn trigger_title_of(m: ModelDescriptor) -> Seq<char> {
    match m.provider {
        Some(p) => p@ + dot() + m.display_name@,
        None => m.display_name@,
    }
}

/// The detail line of a model: its name and, when different, its id.
pub open spec fn row_title_of(m: ModelDescriptor) -> Seq<char> {
    if m.display_name@ == m.id@ {
        m.id@
    } else {
        m.display_name@ + dot() + m.id@
    }
}

/// What is known about a model's availability, as a note.
pub open spec fn availability_note(a: ModelAvailability, l: Language) -> Seq<char> {
    match a {
        ModelAvailability::Available => Seq::empty(),
        ModelAvailability::Unknown => translation(l, Text::Unverified),
        ModelAvailability::Unavailable { reason } => reason@,
    }
}

/// `s` without every trailing repetition of `p` (`trim_end_matches`).
pub open spec fn trim_suffix(s: Seq<char>, p: Seq<char>) -> Seq<char>
    decreases s.len(),
{
    if p.len() > 0 && p.len() <= s.len() && s.skip(s.len() - p.len()) == p {
        trim_suffix(s.take(s.len() - p.len()), p)
    } else {
        s
    }
}

/// The optional provider name, or nothing.
pub open spec fn provider_or_empty(m: ModelDescriptor) -> Seq<char> {
    match m.provider {
        Some(p) => p@,
        None => Seq::empty(),
    }
}

/// The picker row of a catalog model.
pub open spec fn model_item(m: ModelDescriptor, l: Language) -> ItemView {
    ItemView {
        choice: ChoiceView::Model(m.id@),
        title: m.display_name@,
        trigger_title: if selectable(m.availability) {
            trigger_title_of(m)
        } else {
            trigger_title_of(m) + dot() + translation(l, Text::Unavailable)
        },
        detail: trim_suffix(row_title_of(m) + dot() + availability_note(m.availability, l), dot()),
        search_text: provider_or_empty(m) + " "@ + m.display_name@ + " "@ + m.id@,
        disabled: !selectable(m.availability),
    }
}

/// How far the catalog can vouch for a model that it does not list.
pub open spec fn missing_model_note(state: ModelCatalogState) -> Text {
    match state {
        ModelCatalogState::Loading { .. } => Text::Verifying,
        ModelCatalogState::Ready(_) | ModelCatalogState::Empty => Text::Unavailable,
        _ => Text::Unverified,
    }
}

/// The row of a chosen model that the catalog does not list.
pub open spec fn unavailable_item(
    model_id: Seq<char>,
    name: Option<Seq<char>>,
    state: ModelCatalogState,
    l: Language,
) -> ItemView {
    let shown = match name {
        Some(n) => n,
        None => model_id,
    };
    let note = translation(l, missing_model_note(state));
    ItemView {
        choice: ChoiceView::Model(model_id),
        title: shown + dot() + note,
        trigger_title: shown + dot() + note,
        detail: model_id + dot() + note,
        search_text: shown + " "@ + model_id + " "@ + note,
        disabled: true,
    }
}

/// A disabled row that only reports the catalog's state.
pub open spec fn status_item(title: Seq<char>) -> ItemView {
    ItemView {
        choice: ChoiceView::Status(title),
        title,
        trigger_title: title,
        detail: title,
        search_text: title,
        disabled: true,
    }
}

/// The row that follows the default model.
pub open spec fn follow_default_item(
    title: Seq<char>,
    trigger_title: Seq<char>,
    search_text: Seq<char>,
) -> ItemView {
    ItemView {
        choice: ChoiceView::FollowDefault,
        title,
        trigger_title,
        detail: title,
        search_text,
        disabled: false,
    }
}

/// Whether two strings hold the same characters.
pub fn same_text(a: &String, b: &String) -> (r: bool)
    ensures
        r == (a@ == b@),
{
    chars_eq(to_chars(a.as_str()).as_slice(), to_chars(b.as_str()).as_slice())
}

/// Copies a string slice into characters and appends them.
pub(crate) fn push_str(out: &mut Vec<char>, s: &str)
    ensures
        final(out)@ == old(out)@ + s@,
{
    push_all(out, to_chars(s).as_slice());
}

/// `s` without every trailing repetition of `p`.
fn trim_suffix_chars(s: Vec<char>, p: &[char]) -> (r: Vec<char>)
    ensures
        r@ == trim_suffix(s@, p@),
    decreases s@.len(),
{
    if p.len() > 0 && p.len() <= s.len() {
        let tail = crate::text::chars_from(s.as_slice(), s.len() - p.len());
        if chars_eq(tail.as_slice(), p) {
            let head = crate::text::chars_until(s.as_slice(), s.len() - p.len());
            return trim_suffix_chars(head, p);
        }
    }
    s
}

/// The text of the picker's button for a model.
pub fn catalog_model_trigger_title(model: &ModelDescriptor) -> (r: String)
    ensures
        r@ == trigger_title_of(*model),
{
    match &model.provider {
        Some(p) => {
            let mut out = to_chars(p.as_str());
            push_str(&mut out, " · ");
            push_str(&mut out, model.display_name.as_str());
            from_chars(out.as_slice())
        },
        None => model.display_name.clone(),
    }
}

/// The detail line of a model.
pub fn catalog_model_row_title(model: &ModelDescriptor) -> (r: String)
    ensures
        r@ == row_title_of(*model),
{
    if chars_eq(
        to_chars(model.display_name.as_str()).as_slice(),
        to_chars(model.id.as_str()).as_slice(),
    ) {
        model.id.clone()
    } else {
        let mut out = to_chars(model.display_name.as_str());
        push_str(&mut out, " · ");
        push_str(&mut out, model.id.as_str());
        from_chars(out.as_slice())
    }
}

impl CatalogModelItem {
    /// The row that follows the default model.
    pub fn follow_default(title: String, trigger_title: String, search_text: String) -> (item:
        CatalogModelItem)
        ensures
            item@ == follow_default_item(title@, trigger_title@, search_text@),
    {
        CatalogModelItem {
            choice: CatalogModelChoice::FollowDefault,
            detail: title.clone(),
            title,
            trigger_title,
            search_text,
            disabled: false,
        }
    }

    /// The row of a catalog model.
    pub fn model(model: &ModelDescriptor, locale: Language) -> (item: CatalogModelItem)
        ensures
            item@ == model_item(*model, locale),
    {
        let can_select = match &model.availability {
            ModelAvailability::Unavailable { .. } => false,
            _ => true,
        };
        let mut trigger = to_chars(catalog_model_trigger_title(model).as_str());
        if !can_select {
            push_str(&mut trigger, " · ");
            push_str(&mut trigger, locale.text(Text::Unavailable));
        }
        let mut search: Vec<char> = Vec::new();
        match &model.provider {
            Some(p) => push_str(&mut search, p.as_str()),
            None => {},
        }
        push_str(&mut search, " ");
        push_str(&mut search, model.display_name.as_str());
        push_str(&mut search, " ");
        push_str(&mut search, model.id.as_str());
        let mut detail = to_chars(catalog_model_row_title(model).as_str());
        push_str(&mut detail, " · ");
        match &model.availability {
            ModelAvailability::Available => {},
            ModelAvailability::Unknown => push_str(&mut detail, locale.text(Text::Unverified)),
            ModelAvailability::Unavailable { reason } => push_str(&mut detail, reason.as_str()),
        }
        proof {
            assert(search@ =~= provider_or_empty(*model) + " "@ + model.display_name@ + " "@
                + model.id@);
            assert(detail@ =~= row_title_of(*model) + dot() + availability_note(
                model.availability,
                locale,
            ));
        }
        let detail = trim_suffix_chars(detail, to_chars(" · ").as_slice());
        CatalogModelItem {
            choice: CatalogModelChoice::Model(model.id.clone()),
            title: model.display_name.clone(),
            trigger_title: from_chars(trigger.as_slice()),
            detail: from_chars(detail.as_slice()),
            search_text: from_chars(search.as_slice()),
            disabled: !can_select,
        }
    }

    /// The row of a chosen model that the catalog does not list.
    pub fn unavailable(
        model_id: &str,
        name: Option<&str>,
        state: &ModelCatalogState,
        locale: Language,
    ) -> (item: CatalogModelItem)
        ensures
            item@ == unavailable_item(
                model_id@,
                match name {
                    Some(n) => Some(n@),
                    None => None,
                },
                *state,
                locale,
            ),
    {
        let note = locale.text(
            match state {
                ModelCatalogState::Loading { .. } => Text::Verifying,
                ModelCatalogState::Ready(_) | ModelCatalogState::Empty => Text::Unavailable,
                _ => Text::Unverified,
            },
        );
        let shown = match name {
            Some(n) => n,
            None => model_id,
        };
        let mut title = to_chars(shown);
        push_str(&mut title, " · ");
        push_str(&mut title, note);
        let mut search = to_chars(shown);
        push_str(&mut search, " ");
        push_str(&mut search, model_id);
        push_str(&mut search, " ");
        push_str(&mut search, note);
        let mut detail = to_chars(model_id);
        push_str(&mut detail, " · ");
        push_str(&mut detail, note);
        CatalogModelItem {
            choice: CatalogModelChoice::Model(model_id.to_owned()),
            title: from_chars(title.as_slice()),
            trigger_title: from_chars(title.as_slice()),
            detail: from_chars(detail.as_slice()),
            search_text: from_chars(search.as_slice()),
            disabled: true,
        }
    }

    /// A disabled row that reports the catalog's state.
    pub fn status(title: String) -> (item: CatalogModelItem)
        ensures
            item@ == status_item(title@),
    {
        CatalogModelItem {
            choice: CatalogModelChoice::Status(title.clone()),
            trigger_title: title.clone(),
            search_text: title.clone(),
            detail: title.clone(),
            title,
            disabled: true,
        }
    }

    /// A copy of this row.
    pub fn duplicate(&self) -> (c: CatalogModelItem)
        ensures
            c@ == self@,
    {
        CatalogModelItem {
            choice: self.choice.duplicate(),
            title: self.title.clone(),
            trigger_title: self.trigger_title.clone(),
            detail: self.detail.clone(),
            search_text: self.search_text.clone(),
            disabled: self.disabled,
        }
    }

    /// Whether two rows are the same in every field.
    pub fn same(&self, other: &CatalogModelItem) -> (b: bool)
        ensures
            b == (self@ == other@),
    {
        self.choice.same(&other.choice) && same_text(&self.title, &other.title) && same_text(
            &self.trigger_title,
            &other.trigger_title,
        ) && same_text(&self.detail, &other.detail) && same_text(&self.search_text, &other.search_text)
            && self.disabled == other.disabled
    }

    /// Whether this row matches the search `query`.
    pub fn matches(&self, query: &str) -> (b: bool)
        ensures
            b == search_matches(self.search_text@, query@),
            (forall|i: int| 0 <= i < query@.len() ==> #[trigger] unicode_white_space(query@[i])) ==> b,
            is_ascii(self.search_text@) && is_ascii(query@) ==> b == ascii_search(
                self.search_text@,
                query@,
            ),
    {
        matches_search(self.search_text.as_str(), query)
    }
}


/// The models that a catalog state holds; a refresh or a failure keeps the
/// models that were listed before.
pub open spec fn catalog_models(state: ModelCatalogState) -> Seq<ModelDescriptor> {
    match state {
        ModelCatalogState::Loading { models } => models@,
        ModelCatalogState::Ready(models) => models@,
        ModelCatalogState::Failed { models, .. } => models@,
        _ => Seq::empty(),
    }
}

impl ModelCatalogState {
    /// The models that this state holds.
    pub fn models(&self) -> (m: &[ModelDescriptor])
        ensures
            m@ == catalog_models(*self),
    {
        match self {
            ModelCatalogState::Loading { models } => models.as_slice(),
            ModelCatalogState::Ready(models) => models.as_slice(),
            ModelCatalogState::Failed { models, .. } => models.as_slice(),
            _ => &[],
        }
    }
}

/// The first model of `models` whose id is `id`.
pub open spec fn find_by_id(models: Seq<ModelDescriptor>, id: Seq<char>) -> Option<ModelDescriptor>
    decreases models.len(),
{
    if models.len() == 0 {
        None
    } else if models[0].id@ == id {
        Some(models[0])
    } else {
        find_by_id(models.drop_first(), id)
    }
}

/// The first model of `models` that the catalog marks as its default.
pub open spec fn find_default(models: Seq<ModelDescriptor>) -> Option<ModelDescriptor>
    decreases models.len(),
{
    if models.len() == 0 {
        None
    } else if models[0].is_default {
        Some(models[0])
    } else {
        find_default(models.drop_first())
    }
}

/// Whether some model of `models` has the id `id`.
pub open spec fn lists_model(models: Seq<ModelDescriptor>, id: Seq<char>) -> bool {
    exists|k: int| 0 <= k < models.len() && (#[trigger] models[k]).id@ == id
}

/// A model is found by its id exactly when the catalog lists that id.
pub proof fn lemma_find_by_id_lists(models: Seq<ModelDescriptor>, id: Seq<char>)
    ensures
        find_by_id(models, id) is Some <==> lists_model(models, id),
        find_by_id(models, id) matches Some(d) ==> d.id@ == id,
    decreases models.len(),
{
    if models.len() > 0 {
        lemma_find_by_id_lists(models.drop_first(), id);
        if lists_model(models, id) && models[0].id@ != id {
            let k = choose|k: int| 0 <= k < models.len() && (#[trigger] models[k]).id@ == id;
            assert(models.drop_first()[k - 1] == models[k]);
        }
        if lists_model(models.drop_first(), id) {
            let k = choose|k: int|
                0 <= k < models.drop_first().len() && (#[trigger] models.drop_first()[k]).id@ == id;
            assert(models[k + 1] == models.drop_first()[k]);
        }
    }
}

/// The position of the first model whose id is `id`.
pub fn find_model_by_id(models: &[ModelDescriptor], id: &str) -> (r: Option<usize>)
    ensures
        match r {
            Some(k) => k < models@.len() && find_by_id(models@, id@) == Some(models@[k as int]),
            None => find_by_id(models@, id@) is None,
        },
{
    let wanted = to_chars(id);
    let mut i: usize = 0;
    assert(models@.skip(0) =~= models@);
    while i < models.len()
        invariant
            i <= models@.len(),
            wanted@ == id@,
            find_by_id(models@, id@) == find_by_id(models@.skip(i as int), id@),
        decreases models.len() - i,
    {
        assert(models@.skip(i as int)[0] == models@[i as int]);
        assert(models@.skip(i as int).drop_first() =~= models@.skip(i + 1));
        if chars_eq(to_chars(models[i].id.as_str()).as_slice(), wanted.as_slice()) {
            return Some(i);
        }
        i = i + 1;
    }
    None
}

/// The position of the first model that the catalog marks as its default.
pub fn find_default_model(models: &[ModelDescriptor]) -> (r: Option<usize>)
    ensures
        match r {
            Some(k) => k < models@.len() && find_default(models@) == Some(models@[k as int]),
            None => find_default(models@) is None,
        },
{
    let mut i: usize = 0;
    assert(models@.skip(0) =~= models@);
    while i < models.len()
        invariant
            i <= models@.len(),
            find_default(models@) == find_default(models@.skip(i as int)),
        decreases models.len() - i,
    {
        assert(models@.skip(i as int)[0] == models@[i as int]);
        assert(models@.skip(i as int).drop_first() =~= models@.skip(i + 1));
        if models[i].is_default {
            return Some(i);
        }
        i = i + 1;
    }
    None
}

/// How far the catalog vouches for the profile's default model when it does
/// not list it.
pub open spec fn profile_note(state: ModelCatalogState) -> Text {
    match state {
        ModelCatalogState::Loading { .. } => Text::Verifying,
        ModelCatalogState::Failed { .. } => Text::CatalogLoadFailed,
        ModelCatalogState::Ready(_) | ModelCatalogState::Empty => Text::CatalogUnverified,
        ModelCatalogState::Idle | ModelCatalogState::NotReady(_) => Text::Unverified,
    }
}

/// What the button says of the CLI default model, by catalog state.
pub open spec fn cli_suffix(state: ModelCatalogState, l: Language) -> Seq<char> {
    match state {
        ModelCatalogState::Loading { .. } => translation(l, Text::CatalogLoadingSuffix),
        ModelCatalogState::Failed { .. } => translation(l, Text::CatalogFailedSuffix),
        ModelCatalogState::Empty => translation(l, Text::CatalogEmptySuffix),
        ModelCatalogState::Idle | ModelCatalogState::Ready(_) => Seq::empty(),
        ModelCatalogState::NotReady(_) => translation(l, Text::NotReadySuffix),
    }
}

/// The row that follows the default model: the profile's default when the
/// profile names one, else the catalog's default, else the CLI's.
pub open spec fn default_item(m: AppModel) -> ItemView {
    let l = m.language;
    let models = catalog_models(m.model_catalog);
    match m.profile_model {
        Some(pid) => match find_by_id(models, pid@) {
            Some(d) => follow_default_item(
                translation(l, Text::FollowProfileDefaultPrefix) + model_item(d, l).detail,
                translation(l, Text::DefaultPrefix) + model_item(d, l).trigger_title,
                "default 默认 profile "@ + d.display_name@ + " "@ + d.id@,
            ),
            None => {
                let v = translation(l, profile_note(m.model_catalog));
                follow_default_item(
                    translation(l, Text::FollowProfileDefaultPrefix) + pid@ + translation(
                        l,
                        Text::NoteOpen,
                    ) + v + translation(l, Text::NoteClose),
                    translation(l, Text::DefaultPrefix) + pid@ + dot() + v,
                    "default 默认 profile "@ + pid@ + " "@ + v,
                )
            },
        },
        None => match find_default(models) {
            Some(d) => follow_default_item(
                translation(l, Text::FollowCliDefaultPrefix) + model_item(d, l).detail,
                translation(l, Text::CliDefaultPrefix) + model_item(d, l).trigger_title,
                "default 默认 cli "@ + d.display_name@ + " "@ + d.id@,
            ),
            None => follow_default_item(
                translation(l, Text::FollowCliDefaultModel),
                translation(l, Text::CliDefaultModel) + cli_suffix(m.model_catalog, l),
                "default 默认 cli"@,
            ),
        },
    }
}

/// The three texts of a default row that names a catalog model.
fn default_texts(title_prefix: &str, trigger_prefix: &str, search_prefix: &str, row: &CatalogModelItem, d: &ModelDescriptor) -> (r: (String, String, String))
    ensures
        r.0@ == title_prefix@ + row.detail@,
        r.1@ == trigger_prefix@ + row.trigger_title@,
        r.2@ == search_prefix@ + d.display_name@ + " "@ + d.id@,
{
    let mut title = to_chars(title_prefix);
    push_str(&mut title, row.detail.as_str());
    let mut trigger = to_chars(trigger_prefix);
    push_str(&mut trigger, row.trigger_title.as_str());
    let mut search = to_chars(search_prefix);
    push_str(&mut search, d.display_name.as_str());
    push_str(&mut search, " ");
    push_str(&mut search, d.id.as_str());
    (from_chars(title.as_slice()), from_chars(trigger.as_slice()), from_chars(search.as_slice()))
}

/// The row that follows the default model of `model`.
pub fn catalog_follow_default_item(model: &AppModel) -> (item: CatalogModelItem)
    ensures
        item@ == default_item(*model),
{
    let locale = model.language;
    let models = model.model_catalog.models();
    match &model.profile_model {
        Some(pid) => {
            match find_model_by_id(models, pid.as_str()) {
                Some(k) => {
                    let row = CatalogModelItem::model(&models[k], locale);
                    let (title, trigger, search) = default_texts(
                        locale.text(Text::FollowProfileDefaultPrefix),
                        locale.text(Text::DefaultPrefix),
                        "default 默认 profile ",
                        &row,
                        &models[k],
                    );
                    CatalogModelItem::follow_default(title, trigger, search)
                },
                None => {
                    let v = locale.text(
                        match &model.model_catalog {
                            ModelCatalogState::Loading { .. } => Text::Verifying,
                            ModelCatalogState::Failed { .. } => Text::CatalogLoadFailed,
                            ModelCatalogState::Ready(_) | ModelCatalogState::Empty => Text::CatalogUnverified,
                            ModelCatalogState::Idle | ModelCatalogState::NotReady(_) => Text::Unverified,
                        },
                    );
                    let mut title = to_chars(locale.text(Text::FollowProfileDefaultPrefix));
                    push_str(&mut title, pid.as_str());
                    push_str(&mut title, locale.text(Text::NoteOpen));
                    push_str(&mut title, v);
                    push_str(&mut title, locale.text(Text::NoteClose));
                    let mut trigger = to_chars(locale.text(Text::DefaultPrefix));
                    push_str(&mut trigger, pid.as_str());
                    push_str(&mut trigger, " · ");
                    push_str(&mut trigger, v);
                    let mut search = to_chars("default 默认 profile ");
                    push_str(&mut search, pid.as_str());
                    push_str(&mut search, " ");
                    push_str(&mut search, v);
                    assert(v@ == translation(locale, profile_note(model.model_catalog)));
                    assert(find_by_id(catalog_models(model.model_catalog), pid@) is None);
                    CatalogModelItem::follow_default(
                        from_chars(title.as_slice()),
                        from_chars(trigger.as_slice()),
                        from_chars(search.as_slice()),
                    )
                },
            }
        },
        None => {
            match find_default_model(models) {
                Some(k) => {
                    let row = CatalogModelItem::model(&models[k], locale);
                    let (title, trigger, search) = default_texts(
                        locale.text(Text::FollowCliDefaultPrefix),
                        locale.text(Text::CliDefaultPrefix),
                        "default 默认 cli ",
                        &row,
                        &models[k],
                    );
                    CatalogModelItem::follow_default(title, trigger, search)
                },
                None => {
                    let suffix = match &model.model_catalog {
                        ModelCatalogState::Loading { .. } => locale.text(Text::CatalogLoadingSuffix),
                        ModelCatalogState::Failed { .. } => locale.text(Text::CatalogFailedSuffix),
                        ModelCatalogState::Empty => locale.text(Text::CatalogEmptySuffix),
                        ModelCatalogState::Idle | ModelCatalogState::Ready(_) => "",
                        ModelCatalogState::NotReady(_) => locale.text(Text::NotReadySuffix),
                    };
                    proof {
                        reveal_strlit("");
                    }
                    assert(suffix@ == cli_suffix(model.model_catalog, locale));
                    let mut trigger = to_chars(locale.text(Text::CliDefaultModel));
                    push_str(&mut trigger, suffix);
                    CatalogModelItem::follow_default(
                        locale.text(Text::FollowCliDefaultModel).to_owned(),
                        from_chars(trigger.as_slice()),
                        "default 默认 cli".to_owned(),
                    )
                },
            }
        },
    }
}

} // verus!
