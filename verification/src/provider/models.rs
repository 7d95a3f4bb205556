//! The models of providers, and what is read from the environment about providers.
use vstd::prelude::*;

use crate::text;
use crate::text_laws;
use crate::text::CharClass;

verus! {

/// The name of a vendor of models, as the names of its files start with it.
pub const VENDOR_PREFIX: &'static str = "claude_";

/// The same name as it is shown.
pub const BRAND_PREFIX: &'static str = "Claude_";

/// The vendor's name in ids.
pub open spec fn vendor() -> Seq<char> {
    text::trim_end(VENDOR_PREFIX@, CharClass::Just('_'))
}

/// The vendor's name as it is shown.
pub open spec fn brand() -> Seq<char> {
    text::trim_end(BRAND_PREFIX@, CharClass::Just('_'))
}

/// The vendor's name in ids.
pub fn vendor_name() -> (r: String)
    ensures
        r@ == vendor(),
{
    text::trim_end_class(VENDOR_PREFIX, CharClass::Just('_'))
}

/// The vendor's name as it is shown.
pub fn brand_name() -> (r: String)
    ensures
        r@ == brand(),
{
    text::trim_end_class(BRAND_PREFIX, CharClass::Just('_'))
}

/// How long a provider may be silent, in seconds, where nothing else is said.
pub const DEFAULT_IDLE_SECS: u64 = 120;

/// What a provider can do.
#[derive(Debug, Clone, Copy, PartialEq, Eq, Structural)]
pub struct ProviderCapabilities {
    pub streaming: bool,
    pub token_counting: bool,
    pub tool_calling: bool,
}

/// What each of the providers can do.
pub fn capabilities() -> (r: ProviderCapabilities)
    ensures
        r == (ProviderCapabilities { streaming: true, token_counting: false, tool_calling: true }),
{
    ProviderCapabilities { streaming: true, token_counting: false, tool_calling: true }
}

/// A model that a provider offers.
#[derive(Debug)]
pub struct ModelInfo {
    pub id: String,
    pub display_name: String,
    pub context_window: Option<u64>,
}

/// The content of a `ModelInfo`.
pub struct ModelView {
    pub id: Seq<char>,
    pub display_name: Seq<char>,
    pub context_window: Option<u64>,
}

impl View for ModelInfo {
    type V = ModelView;

    open spec fn view(&self) -> ModelView {
        ModelView {
            id: self.id@,
            display_name: self.display_name@,
            context_window: self.context_window,
        }
    }
}

pub open spec fn model_views(models: Seq<ModelInfo>) -> Seq<ModelView> {
    models.map_values(|m: ModelInfo| m@)
}

/// A model of which only the names are known.
pub open spec fn named_model(id: Seq<char>, display_name: Seq<char>) -> ModelView {
    ModelView { id, display_name, context_window: None }
}

impl ModelInfo {
    pub fn named(id: &str, display_name: &str) -> (r: ModelInfo)
        ensures
            r@ == named_model(id@, display_name@),
    {
        ModelInfo {
            id: id.to_string(),
            display_name: display_name.to_string(),
            context_window: None,
        }
    }
}

/// Appends a model.
pub fn push_model(models: &mut Vec<ModelInfo>, model: ModelInfo)
    ensures
        model_views(final(models)@) == model_views(old(models)@).push(model@),
{
    let ghost before = model_views(models@);
    let ghost added = model@;
    models.push(model);
    assert(model_views(models@) =~= before.push(added));
}

pub open spec fn has_model(models: Seq<ModelView>, id: Seq<char>) -> bool {
    exists|i: int| 0 <= i < models.len() && (#[trigger] models[i]).id == id
}

/// The models with those of the ids that are not among them.
pub open spec fn extended(models: Seq<ModelView>, ids: Seq<Seq<char>>) -> Seq<ModelView>
    decreases ids.len(),
{
    if ids.len() == 0 {
        models
    } else {
        let before = extended(models, ids.drop_last());
        if has_model(before, ids.last()) {
            before
        } else {
            before.push(named_model(ids.last(), ids.last()))
        }
    }
}

fn offers(models: &Vec<ModelInfo>, id: &str) -> (r: bool)
    ensures
        r == has_model(model_views(models@), id@),
{
    let ghost all = model_views(models@);
    let mut i: usize = 0;
    while i < models.len()
        invariant
            i <= models@.len(),
            all == model_views(models@),
            forall|k: int| 0 <= k < i ==> (#[trigger] all[k]).id != id@,
        decreases models@.len() - i,
    {
        if text::same(models[i].id.as_str(), id) {
            assert(all[i as int].id == id@);
            return true;
        }
        assert(all[i as int].id != id@);
        i += 1;
    }
    false
}

/// Adds those of the ids that are not among the models.
pub fn extend_models(models: &mut Vec<ModelInfo>, ids: &Vec<String>)
    ensures
        model_views(final(models)@) == extended(model_views(old(models)@), text::views(ids@)),
{
    let ghost first = model_views(models@);
    let ghost all = text::views(ids@);
    let mut i: usize = 0;
    while i < ids.len()
        invariant
            i <= ids@.len(),
            all == text::views(ids@),
            model_views(models@) == extended(first, all.take(i as int)),
        decreases ids@.len() - i,
    {
        assert(all.take(i + 1).drop_last() =~= all.take(i as int));
        assert(all.take(i + 1).last() == ids@[i as int]@);
        if !offers(models, ids[i].as_str()) {
            push_model(models, ModelInfo::named(ids[i].as_str(), ids[i].as_str()));
        }
        i += 1;
    }
    assert(all.take(i as int) =~= all);
}

/// The parts of a list, without white space around them; those that are blank are left
/// out.
pub open spec fn shown_parts(parts: Seq<Seq<char>>) -> Seq<Seq<char>>
    decreases parts.len(),
{
    if parts.len() == 0 {
        seq![]
    } else {
        let before = shown_parts(parts.drop_last());
        let part = text::trimmed(parts.last());
        if part.len() > 0 {
            before.push(part)
        } else {
            before
        }
    }
}

/// The ids in a list with commas between them.
pub open spec fn listed_ids(raw: Seq<char>) -> Seq<Seq<char>> {
    shown_parts(text::split(raw, CharClass::Just(',')))
}

/// The ids that the text lists, if there is one.
pub open spec fn ids_of(raw: Option<Seq<char>>) -> Seq<Seq<char>> {
    match raw {
        Some(r) => listed_ids(r),
        None => seq![],
    }
}

/// The ids in a list with commas between them.
pub fn read_ids(raw: &str) -> (ids: Vec<String>)
    ensures
        text::views(ids@) == listed_ids(raw@),
{
    let parts = text::split_class(raw, CharClass::Just(','));
    let ghost all = text::views(parts@);
    let mut ids: Vec<String> = Vec::new();
    let mut i: usize = 0;
    assert(text::views(ids@) =~= shown_parts(all.take(0)));
    while i < parts.len()
        invariant
            i <= parts@.len(),
            all == text::views(parts@),
            text::views(ids@) == shown_parts(all.take(i as int)),
        decreases parts@.len() - i,
    {
        assert(all.take(i + 1).drop_last() =~= all.take(i as int));
        assert(all.take(i + 1).last() == parts@[i as int]@);
        let part = text::trim(parts[i].as_str());
        if !text::is_blank_len(&part) {
            let ghost before = text::views(ids@);
            let ghost added = part@;
            ids.push(part);
            assert(text::views(ids@) =~= before.push(added));
        }
        i += 1;
    }
    assert(all.take(i as int) =~= all);
    ids
}

/// The ids that the text lists, if there is one.
pub fn read_ids_of(raw: Option<&str>) -> (ids: Vec<String>)
    ensures
        text::views(ids@) == ids_of(
            match raw {
                Some(r) => Some(r@),
                None => None,
            },
        ),
{
    match raw {
        Some(r) => read_ids(r),
        None => {
            let ids: Vec<String> = Vec::new();
            assert(text::views(ids@) =~= seq![]);
            ids
        },
    }
}

/// How long a provider may be silent, in seconds, where a text says so: a positive number
/// of seconds.
pub open spec fn idle_secs(raw: Option<Seq<char>>) -> u64 {
    match raw {
        Some(r) => match text::parse_unsigned(r, u64::MAX as nat) {
            Some(n) => if n > 0 {
                n as u64
            } else {
                DEFAULT_IDLE_SECS
            },
            None => DEFAULT_IDLE_SECS,
        },
        None => DEFAULT_IDLE_SECS,
    }
}

/// How long a provider may be silent, in seconds.
pub fn idle_timeout(raw: Option<&str>) -> (r: u64)
    ensures
        r == idle_secs(
            match raw {
                Some(s) => Some(s@),
                None => None,
            },
        ),
        r > 0,
{
    match raw {
        Some(s) => match text::parse_u64(s) {
            Some(n) => if n > 0 {
                n
            } else {
                DEFAULT_IDLE_SECS
            },
            None => DEFAULT_IDLE_SECS,
        },
        None => DEFAULT_IDLE_SECS,
    }
}

/// The address without slashes at its end.
pub fn trim_trailing_slash(value: &str) -> (r: String)
    ensures
        r@ == text::trim_end(value@, CharClass::Just('/')),
{
    text::trim_end_class(value, CharClass::Just('/'))
}

/// Extending models keeps those that are there, at their places, and adds no id that is
/// there already.
pub proof fn extending_keeps_models(models: Seq<ModelView>, ids: Seq<Seq<char>>)
    ensures
        models.is_prefix_of(extended(models, ids)),
        forall|i: int, j: int|
            models.len() <= j < extended(models, ids).len() && 0 <= i < j ==> (
            #[trigger] extended(models, ids)[i]).id != (#[trigger] extended(models, ids)[j]).id,
    decreases ids.len(),
{
    if ids.len() > 0 {
        extending_keeps_models(models, ids.drop_last());
        let before = extended(models, ids.drop_last());
        let after = extended(models, ids);
        assert forall|i: int, j: int| models.len() <= j < after.len() && 0 <= i < j implies (
        #[trigger] after[i]).id != (#[trigger] after[j]).id by {
            if after.len() > before.len() && j == before.len() {
                assert(!has_model(before, ids.last()));
                assert(before[i].id != ids.last());
            } else {
                assert(before[i].id != before[j].id);
            }
        }
    }
}

/// The ids that a list names are those between its commas, without the white space round
/// them; blank ones are left out.
pub proof fn ids_stand_between_commas(list: Seq<char>, l: Seq<char>, id: Seq<char>, r: Seq<char>)
    requires
        text_laws::blank(l),
        text_laws::blank(r),
        text_laws::tight(id),
        text::free_of(l + id + r, CharClass::Just(',')),
    ensures
        id.len() > 0 ==> listed_ids(list.push(',') + (l + id + r)) == listed_ids(list).push(id),
        id.len() == 0 ==> listed_ids(list.push(',') + (l + id + r)) == listed_ids(list),
        id.len() > 0 ==> listed_ids(l + id + r) == seq![id],
{
    let k = CharClass::Just(',');
    let piece = l + id + r;
    text::pieces_come_apart(list, ',', piece, k);
    text::a_text_without_breaks_is_one_piece(piece, k);
    text_laws::trimming_takes_the_white_space_at_the_ends(l, id, r);
    let parts = text::split(list, k);
    assert((parts + seq![piece]).drop_last() =~= parts);
    assert((parts + seq![piece]).last() == piece);
    assert(seq![piece].drop_last() =~= seq![]);
    assert(shown_parts(seq![piece].drop_last()) =~= seq![]);
    assert(Seq::<Seq<char>>::empty().push(id) =~= seq![id]);
}

/// How long a provider may be silent is what the environment says, where that is a number
/// above zero, and two minutes otherwise.
pub proof fn the_environment_says_how_long_to_wait(n: u64, other: Seq<char>)
    ensures
        n > 0 ==> idle_secs(Some(text::decimal(n as nat))) == n,
        idle_secs(Some(text::decimal(0))) == 120,
        idle_secs(None) == 120,
        text::parse_unsigned(other, u64::MAX as nat) is None ==> idle_secs(Some(other)) == 120,
{
    text_laws::numbers_are_read_back(n as nat, u64::MAX as nat);
    text_laws::numbers_are_read_back(0, u64::MAX as nat);
}

/// A model is offered once for each id that is named and not offered already, under its id
/// as its name, behind those that are offered anyway.
pub proof fn named_models_are_offered_once(
    models: Seq<ModelView>,
    ids: Seq<Seq<char>>,
    id: Seq<char>,
)
    ensures
        ({
            let before = extended(models, ids);
            let after = extended(models, ids.push(id));
            let there = exists|i: int| 0 <= i < before.len() && (#[trigger] before[i]).id == id;
            &&& there ==> after == before
            &&& !there ==> after == before.push(
                ModelView { id, display_name: id, context_window: None },
            )
            &&& models.is_prefix_of(before)
        }),
    decreases ids.len(),
{
    assert(ids.push(id).drop_last() =~= ids);
    if ids.len() > 0 {
        named_models_are_offered_once(models, ids.drop_last(), ids.last());
        assert(ids.drop_last().push(ids.last()) =~= ids);
    }
}

} // verus!
