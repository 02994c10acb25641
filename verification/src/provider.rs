//! Model service providers: their identifiers, the endpoint that lists their
//! models, and the edits `gqy provider` makes to the configured set.
use vstd::prelude::*;
use crate::text::{
    ascii_lower_seq, chars_of, ends_with, extend_str, has_suffix_str, is_ascii_alphanumeric,
    split_char, split_on_char, string_of, strip_all_prefix, strip_all_prefix_chars, trim,
    trim_chars, trim_char, trim_char_chars, trim_end_char, trim_end_char_chars, trim_str,
    char_is_ascii_alphanumeric, ascii_lower_chars, lemma_split_char_nonempty, str_is,
};

verus! {

// ---------------------------------------------------------------- identifiers

/// Every character that is not an ASCII letter or digit becomes `-`.
pub open spec fn dash_non_alnum(s: Seq<char>) -> Seq<char> {
    s.map_values(|c: char| if is_ascii_alphanumeric(c) { c } else { '-' })
}

fn dash_non_alnum_chars(s: &[char]) -> (r: Vec<char>)
    ensures
        r@ == dash_non_alnum(s@),
{
    let mut out: Vec<char> = Vec::new();
    let mut i: usize = 0;
    while i < s.len()
        invariant
            i <= s.len(),
            out@ == dash_non_alnum(s@.take(i as int)),
        decreases s.len() - i,
    {
        let c = s[i];
        out.push(if char_is_ascii_alphanumeric(c) { c } else { '-' });
        assert(dash_non_alnum(s@.take(i + 1)) =~= dash_non_alnum(s@.take(i as int)).push(
            if is_ascii_alphanumeric(c) { c } else { '-' },
        ));
        i += 1;
    }
    assert(s@.take(s.len() as int) =~= s@);
    out
}

/// What `str::to_lowercase` gives for a string: the Unicode lowercase mapping,
/// in which one character may become several.
pub uninterp spec fn unicode_lowercase(s: Seq<char>) -> Seq<char>;

/// `str::to_lowercase`; its result is named here, by `unicode_lowercase`, and
/// for a text of ASCII characters it is the text with `A`-`Z` lowered, one
/// character for one.
#[verifier::external_body]
pub(crate) fn to_lowercase(s: &str) -> (r: String)
    ensures
        r@ == unicode_lowercase(s@),
        (forall|i: int| 0 <= i < s@.len() ==> (#[trigger] s@[i] as u32) < 128) ==> r@ == s@.map_values(
            |c: char| crate::text::ascii_lower(c),
        ),
{
    s.to_lowercase()
}

/// A provider id was refused: nothing of it survived cleaning.
#[derive(Debug, Clone, PartialEq, Eq, Structural)]
pub struct InvalidProviderId;

/// The id made of already lowercased text: non-alphanumerics as `-`, no `-` at
/// either end, at most 32 characters; refused when empty.
pub open spec fn clean_id(lowered: Seq<char>) -> Option<Seq<char>> {
    let t = trim_char(dash_non_alnum(lowered), '-');
    let c = if t.len() <= 32 { t } else { t.take(32) };
    if c.len() == 0 { None } else { Some(c) }
}

pub fn sanitize_lowered_id(lowered: &str) -> (r: Result<String, InvalidProviderId>)
    ensures
        match clean_id(lowered@) {
            Some(c) => r matches Ok(s) && s@ == c,
            None => r is Err,
        },
{
    let l = chars_of(lowered);
    let dashed = dash_non_alnum_chars(l.as_slice());
    let t = trim_char_chars(dashed.as_slice(), '-');
    let n = if t.len() <= 32 { t.len() } else { 32 };
    if n == 0 {
        return Err(InvalidProviderId);
    }
    let c = crate::text::slice_chars(t.as_slice(), 0, n);
    assert(t@.len() <= 32 ==> c@ =~= t@);
    Ok(string_of(c.as_slice()))
}

/// `sanitize_id`: trims the id, lowercases it and cleans it as `clean_id` says.
pub fn sanitize_id(id: &str) -> (r: Result<String, InvalidProviderId>)
    ensures
        match clean_id(unicode_lowercase(trim(id@))) {
            Some(c) => r matches Ok(s) && s@ == c,
            None => r is Err,
        },
        (forall|i: int| 0 <= i < trim(id@).len() ==> (#[trigger] trim(id@)[i] as u32) < 128) ==> clean_id(
            unicode_lowercase(trim(id@)),
        ) == clean_id(trim(id@).map_values(|c: char| crate::text::ascii_lower(c))),
{
    let t = trim_str(id);
    let ts = string_of(t.as_slice());
    let lowered = to_lowercase(ts.as_str());
    sanitize_lowered_id(lowered.as_str())
}

/// The provider id guessed from a base URL: the first dot-separated label of
/// the host (scheme and trailing `/` dropped), non-alphanumerics as `-`, or
/// `custom` when that is empty.
pub open spec fn inferred_id(base_url: Seq<char>) -> Seq<char> {
    let s = trim_end_char(
        strip_all_prefix(strip_all_prefix(trim(base_url), "https://"@), "http://"@),
        '/',
    );
    let first = split_char(s, '.')[0];
    if first.len() == 0 {
        "custom"@
    } else {
        dash_non_alnum(first)
    }
}

pub fn infer_id(base_url: &str) -> (r: String)
    ensures
        r@ == inferred_id(base_url@),
{
    let t = trim_str(base_url);
    let a = strip_all_prefix_chars(t.as_slice(), "https://");
    let b = strip_all_prefix_chars(a.as_slice(), "http://");
    let s = trim_end_char_chars(b.as_slice(), '/');
    let parts = split_on_char(s.as_slice(), '.');
    proof {
        lemma_split_char_nonempty(s@, '.');
    }
    let first = &parts[0];
    if first.len() == 0 {
        return "custom".to_string();
    }
    let d = dash_non_alnum_chars(first.as_slice());
    string_of(d.as_slice())
}

/// The endpoint that lists a provider's models: `{base}/models` when the base
/// (trimmed, trailing `/` dropped) ends in `/v1`, else `{base}/v1/models`;
/// none for an empty base.
pub open spec fn models_endpoint(base_url: Seq<char>) -> Option<Seq<char>> {
    let base = trim_end_char(trim(base_url), '/');
    if base.len() == 0 {
        None
    } else if ends_with(base, "/v1"@) {
        Some(base + "/models"@)
    } else {
        Some(base + "/v1/models"@)
    }
}

pub fn models_url(base_url: &str) -> (r: Option<String>)
    ensures
        match r {
            Some(u) => models_endpoint(base_url@) == Some(u@),
            None => models_endpoint(base_url@) is None,
        },
{
    let t = trim_str(base_url);
    let mut base = trim_end_char_chars(t.as_slice(), '/');
    if base.len() == 0 {
        return None;
    }
    if has_suffix_str(base.as_slice(), "/v1") {
        extend_str(&mut base, "/models");
    } else {
        extend_str(&mut base, "/v1/models");
    }
    Some(string_of(base.as_slice()))
}

// ---------------------------------------------------------------- configured providers

/// `str::eq_ignore_ascii_case`.
pub open spec fn eq_ignore_ascii_case(a: Seq<char>, b: Seq<char>) -> bool {
    ascii_lower_seq(a) == ascii_lower_seq(b)
}

fn is_pi_text(s: &str) -> (r: bool)
    ensures
        r == eq_ignore_ascii_case(trim(s@), "pi"@),
{
    let t = trim_str(s);
    let l = ascii_lower_chars(t.as_slice());
    proof {
        reveal_strlit("pi");
        assert(ascii_lower_seq("pi"@) =~= "pi"@);
    }
    str_is(l.as_slice(), "pi")
}

/// A configured model service, as far as the provider commands read and edit it.
#[derive(Debug, Clone)]
pub struct ProviderConfig {
    pub id: String,
    pub display_name: String,
    pub base_url: String,
    pub protocol: String,
    pub api_key: Option<String>,
    pub models: Vec<String>,
    pub default_model: String,
}

impl ProviderConfig {
    /// Whether this is the `pi` agent base: protocol or id is `pi`, trimmed and
    /// ignoring ASCII case.
    pub open spec fn is_pi_spec(self) -> bool {
        eq_ignore_ascii_case(trim(self.protocol@), "pi"@) || eq_ignore_ascii_case(
            trim(self.id@),
            "pi"@,
        )
    }

    pub fn is_pi(&self) -> (r: bool)
        ensures
            r == self.is_pi_spec(),
    {
        is_pi_text(self.protocol.as_str()) || is_pi_text(self.id.as_str())
    }
}


/// A provider as plain values.
pub struct ProviderView {
    pub id: Seq<char>,
    pub display_name: Seq<char>,
    pub base_url: Seq<char>,
    pub protocol: Seq<char>,
    pub api_key: Option<Seq<char>>,
    pub models: Seq<Seq<char>>,
    pub default_model: Seq<char>,
}

pub open spec fn strings_view(v: Seq<String>) -> Seq<Seq<char>> {
    v.map_values(|s: String| s@)
}

pub open spec fn opt_string_view(o: Option<String>) -> Option<Seq<char>> {
    match o {
        Some(s) => Some(s@),
        None => None,
    }
}

impl View for ProviderConfig {
    type V = ProviderView;

    open spec fn view(&self) -> ProviderView {
        ProviderView {
            id: self.id@,
            display_name: self.display_name@,
            base_url: self.base_url@,
            protocol: self.protocol@,
            api_key: opt_string_view(self.api_key),
            models: strings_view(self.models@),
            default_model: self.default_model@,
        }
    }
}

/// The model that is active for a provider.
#[derive(Debug, Clone)]
pub struct ActiveProviderModel {
    pub provider_id: String,
    pub model: String,
}

/// The configured providers and which one is active.
#[derive(Debug, Clone)]
pub struct ProviderBook {
    pub providers: Vec<ProviderConfig>,
    pub active_provider: String,
    pub active_provider_models: Option<Vec<ActiveProviderModel>>,
}

pub open spec fn providers_view(ps: Seq<ProviderConfig>) -> Seq<ProviderView> {
    ps.map_values(|p: ProviderConfig| p@)
}

/// The active models as `(provider, model)` pairs.
pub open spec fn active_view(a: Option<Vec<ActiveProviderModel>>) -> Option<Seq<(Seq<char>, Seq<char>)>> {
    match a {
        Some(v) => Some(v@.map_values(|m: ActiveProviderModel| (m.provider_id@, m.model@))),
        None => None,
    }
}

/// Index of the first provider with this id.
pub open spec fn find_provider(ps: Seq<ProviderView>, id: Seq<char>) -> Option<int>
    decreases ps.len(),
{
    if ps.len() == 0 {
        None
    } else {
        match find_provider(ps.drop_last(), id) {
            Some(i) => Some(i),
            None => if ps.last().id == id {
                Some(ps.len() - 1)
            } else {
                None
            },
        }
    }
}

pub proof fn lemma_find_provider(ps: Seq<ProviderView>, id: Seq<char>)
    ensures
        match find_provider(ps, id) {
            Some(i) => 0 <= i < ps.len() && ps[i].id == id && forall|j: int|
                0 <= j < i ==> ps[j].id != id,
            None => forall|j: int| 0 <= j < ps.len() ==> ps[j].id != id,
        },
    decreases ps.len(),
{
    if ps.len() > 0 {
        let d = ps.drop_last();
        lemma_find_provider(d, id);
        assert forall|j: int| 0 <= j < d.len() implies #[trigger] d[j] == ps[j] by {}
        match find_provider(d, id) {
            Some(i) => {
                assert(d[i] == ps[i]);
                assert forall|j: int| 0 <= j < i implies ps[j].id != id by {
                    assert(d[j] == ps[j]);
                }
            },
            None => {
                assert forall|j: int| 0 <= j < ps.len() - 1 implies ps[j].id != id by {
                    assert(d[j] == ps[j]);
                }
            },
        }
    }
}

pub(crate) fn find_provider_index(ps: &Vec<ProviderConfig>, id: &str) -> (r: Option<usize>)
    ensures
        match r {
            Some(i) => i < ps.len() && find_provider(providers_view(ps@), id@) == Some(i as int),
            None => find_provider(providers_view(ps@), id@) is None,
        },
{
    let idc = chars_of(id);
    let mut i: usize = 0;
    while i < ps.len()
        invariant
            i <= ps.len(),
            idc@ == id@,
            forall|j: int| 0 <= j < i ==> ps@[j].id@ != id@,
        decreases ps.len() - i,
    {
        let pid = chars_of(ps[i].id.as_str());
        if crate::text::seq_eq(pid.as_slice(), idc.as_slice()) {
            proof {
                lemma_find_provider(providers_view(ps@), id@);
                let f = find_provider(providers_view(ps@), id@);
                assert(providers_view(ps@)[i as int].id == id@);
                if f is None {
                    assert(false);
                }
                let k = f->0;
                assert(providers_view(ps@)[k].id == ps@[k].id@);
                assert(!(k < i));
                assert(!(k > i));
            }
            return Some(i);
        }
        i += 1;
    }
    proof {
        lemma_find_provider(providers_view(ps@), id@);
        let f = find_provider(providers_view(ps@), id@);
        if f is Some {
            let k = f->0;
            assert(providers_view(ps@)[k].id == ps@[k].id@);
        }
    }
    None
}

/// Why a provider edit was refused.
#[derive(Debug, Clone, Copy, PartialEq, Eq, Structural)]
pub enum ProviderEditError {
    InvalidId,
    NotFound,
    NoModel,
}

/// The model `switch_provider` activates: the one asked for when not blank,
/// else the provider's trimmed default model when not blank, else its first.
pub open spec fn switch_model(p: ProviderView, model: Option<Seq<char>>) -> Option<Seq<char>> {
    if model is Some && trim(model->0).len() > 0 {
        model
    } else if trim(p.default_model).len() > 0 {
        Some(trim(p.default_model))
    } else if p.models.len() > 0 {
        Some(p.models[0])
    } else {
        None
    }
}

/// With no model asked for (or only a blank one), the provider's default
/// model, trimmed, is the one activated whenever it is not blank; the first
/// listed model is taken only when the default is blank; a model asked for by
/// name always wins.
pub proof fn lemma_switch_prefers_default(p: ProviderView, model: Option<Seq<char>>)
    ensures
        model is Some && trim(model->0).len() > 0 ==> switch_model(p, model) == model,
        !(model is Some && trim(model->0).len() > 0) && trim(p.default_model).len() > 0
            ==> switch_model(p, model) == Some(trim(p.default_model)),
        !(model is Some && trim(model->0).len() > 0) && trim(p.default_model).len() == 0
            && p.models.len() > 0 ==> switch_model(p, model) == Some(p.models[0]),
        switch_model(p, model) is None <==> !(model is Some && trim(model->0).len() > 0) && trim(
            p.default_model,
        ).len() == 0 && p.models.len() == 0,
{
}

fn only_active(provider_id: String, model: String) -> (r: Option<Vec<ActiveProviderModel>>)
    ensures
        active_view(r) == Some(seq![(provider_id@, model@)]),
{
    let mut v: Vec<ActiveProviderModel> = Vec::new();
    v.push(ActiveProviderModel { provider_id, model });
    proof {
        assert(v@.map_values(|m: ActiveProviderModel| (m.provider_id@, m.model@)) =~= seq![
            (provider_id@, model@),
        ]);
    }
    Some(v)
}

/// Makes a configured provider the active one, with the model `switch_model`
/// picks; returns that model too.
pub fn switch_provider(book: ProviderBook, provider_id: &str, model: Option<String>) -> (r: Result<
    (ProviderBook, String),
    ProviderEditError,
>)
    ensures
        match find_provider(providers_view(book.providers@), provider_id@) {
            None => r == Err::<(ProviderBook, String), ProviderEditError>(
                ProviderEditError::NotFound,
            ),
            Some(i) => match switch_model(book.providers@[i]@, opt_string_view(model)) {
                None => r == Err::<(ProviderBook, String), ProviderEditError>(
                    ProviderEditError::NoModel,
                ),
                Some(m) => r matches Ok((b, chosen)) && chosen@ == m && b.providers@
                    == book.providers@ && b.active_provider@ == provider_id@ && active_view(
                    b.active_provider_models,
                ) == Some(seq![(provider_id@, m)]),
            },
        },
        find_provider(providers_view(book.providers@), provider_id@) matches Some(i) ==> {
            let p = book.providers@[i]@;
            let asked = model is Some && trim(model->0@).len() > 0;
            &&& asked ==> (r is Ok && r->Ok_0.1@ == model->0@)
            &&& !asked && trim(p.default_model).len() > 0 ==> (r is Ok && r->Ok_0.1@ == trim(
                p.default_model,
            ))
            &&& !asked && trim(p.default_model).len() == 0 && p.models.len() > 0 ==> (r is Ok
                && r->Ok_0.1@ == p.models[0])
            &&& !asked && trim(p.default_model).len() == 0 && p.models.len() == 0 ==> r
                == Err::<(ProviderBook, String), ProviderEditError>(ProviderEditError::NoModel)
        },
{
    let idx = match find_provider_index(&book.providers, provider_id) {
        Some(i) => i,
        None => { return Err(ProviderEditError::NotFound); },
    };
    let chosen: String;
    {
        let p = &book.providers[idx];
        proof {
            assert(providers_view(book.providers@)[idx as int] == p@);
        }
        let asked = match &model {
            Some(m) => {
                let t = trim_str(m.as_str());
                if t.len() > 0 {
                    Some(m.clone())
                } else {
                    None
                }
            },
            None => None,
        };
        match asked {
            Some(m) => { chosen = m; },
            None => {
                let d = trim_str(p.default_model.as_str());
                if d.len() > 0 {
                    chosen = string_of(d.as_slice());
                } else if p.models.len() > 0 {
                    chosen = p.models[0].clone();
                    proof {
                        assert(p@.models[0] == p.models@[0]@);
                    }
                } else {
                    return Err(ProviderEditError::NoModel);
                }
            },
        }
    }
    let mut b = book;
    b.active_provider = provider_id.to_string();
    b.active_provider_models = only_active(provider_id.to_string(), chosen.clone());
    Ok((b, chosen))
}


fn clone_strings(v: &Vec<String>) -> (r: Vec<String>)
    ensures
        strings_view(r@) == strings_view(v@),
{
    let mut out: Vec<String> = Vec::new();
    let mut i: usize = 0;
    while i < v.len()
        invariant
            i <= v.len(),
            strings_view(out@) == strings_view(v@.take(i as int)),
        decreases v.len() - i,
    {
        out.push(v[i].clone());
        assert(strings_view(v@.take(i + 1)) =~= strings_view(v@.take(i as int)).push(v@[i as int]@));
        assert(strings_view(out@) =~= strings_view(v@.take(i + 1)));
        i += 1;
    }
    assert(v@.take(v.len() as int) =~= v@);
    out
}

fn clone_opt_string(o: &Option<String>) -> (r: Option<String>)
    ensures
        opt_string_view(r) == opt_string_view(*o),
{
    match o {
        Some(s) => Some(s.clone()),
        None => None,
    }
}

impl ProviderConfig {
    /// A copy with the same contents.
    pub fn duplicate(&self) -> (r: ProviderConfig)
        ensures
            r@ == self@,
    {
        ProviderConfig {
            id: self.id.clone(),
            display_name: self.display_name.clone(),
            base_url: self.base_url.clone(),
            protocol: self.protocol.clone(),
            api_key: clone_opt_string(&self.api_key),
            models: clone_strings(&self.models),
            default_model: self.default_model.clone(),
        }
    }
}

/// The providers whose id is not `id`, in order.
pub open spec fn without_id(ps: Seq<ProviderView>, id: Seq<char>) -> Seq<ProviderView>
    decreases ps.len(),
{
    if ps.len() == 0 {
        seq![]
    } else {
        let r = without_id(ps.drop_last(), id);
        if ps.last().id == id {
            r
        } else {
            r.push(ps.last())
        }
    }
}

/// What is active after the active provider was removed: the first remaining
/// provider with its first model, or nothing.
pub open spec fn active_after_removal(rest: Seq<ProviderView>) -> (Seq<char>, Option<Seq<(Seq<char>, Seq<char>)>>) {
    if rest.len() == 0 {
        (seq![], None)
    } else if rest[0].models.len() > 0 {
        (rest[0].id, Some(seq![(rest[0].id, rest[0].models[0])]))
    } else {
        (rest[0].id, None)
    }
}

/// Removes every provider with this id; when it was the active one, the first
/// remaining provider (with its first model) becomes active.
pub fn remove_provider(book: ProviderBook, provider_id: &str) -> (r: Result<ProviderBook, ProviderEditError>)
    ensures
        match find_provider(providers_view(book.providers@), provider_id@) {
            None => r == Err::<ProviderBook, ProviderEditError>(ProviderEditError::NotFound),
            Some(_) => r matches Ok(b) && ({
                let rest = without_id(providers_view(book.providers@), provider_id@);
                &&& providers_view(b.providers@) == rest
                &&& if book.active_provider@ == provider_id@ {
                    (b.active_provider@, active_view(b.active_provider_models))
                        == active_after_removal(rest)
                } else {
                    b.active_provider == book.active_provider && b.active_provider_models
                        == book.active_provider_models
                }
            }),
        },
{
    if find_provider_index(&book.providers, provider_id).is_none() {
        return Err(ProviderEditError::NotFound);
    }
    let idc = chars_of(provider_id);
    let mut kept: Vec<ProviderConfig> = Vec::new();
    let mut i: usize = 0;
    while i < book.providers.len()
        invariant
            i <= book.providers.len(),
            idc@ == provider_id@,
            providers_view(kept@) == without_id(
                providers_view(book.providers@.take(i as int)),
                provider_id@,
            ),
        decreases book.providers.len() - i,
    {
        let p = &book.providers[i];
        let pid = chars_of(p.id.as_str());
        proof {
            assert(providers_view(book.providers@.take(i + 1)).drop_last() =~= providers_view(
                book.providers@.take(i as int),
            ));
            assert(providers_view(book.providers@.take(i + 1)).last() == p@);
        }
        if !crate::text::seq_eq(pid.as_slice(), idc.as_slice()) {
            kept.push(p.duplicate());
            assert(providers_view(kept@) =~= without_id(
                providers_view(book.providers@.take(i as int)),
                provider_id@,
            ).push(p@));
        }
        i += 1;
    }
    proof {
        assert(book.providers@.take(book.providers.len() as int) =~= book.providers@);
    }
    let ghost rest = providers_view(kept@);
    let was_active = str_is(chars_of(book.active_provider.as_str()).as_slice(), provider_id);
    let mut b = book;
    if was_active {
        if kept.len() > 0 {
            let next_id = kept[0].id.clone();
            proof {
                assert(rest[0] == kept@[0]@);
            }
            if kept[0].models.len() > 0 {
                let m = kept[0].models[0].clone();
                proof {
                    assert(rest[0].models[0] == kept@[0].models@[0]@);
                }
                b.active_provider_models = only_active(next_id.clone(), m);
            } else {
                b.active_provider_models = None;
            }
            b.active_provider = next_id;
        } else {
            b.active_provider = String::new();
            b.active_provider_models = None;
        }
    }
    b.providers = kept;
    Ok(b)
}

/// Whether a list of strings holds this one.
fn holds_string(v: &Vec<String>, s: &str) -> (r: bool)
    ensures
        r == strings_view(v@).contains(s@),
{
    let sc = chars_of(s);
    let mut i: usize = 0;
    while i < v.len()
        invariant
            i <= v.len(),
            sc@ == s@,
            forall|j: int| 0 <= j < i ==> v@[j]@ != s@,
        decreases v.len() - i,
    {
        let x = chars_of(v[i].as_str());
        if crate::text::seq_eq(x.as_slice(), sc.as_slice()) {
            assert(strings_view(v@)[i as int] == s@);
            return true;
        }
        i += 1;
    }
    proof {
        if strings_view(v@).contains(s@) {
            let j = choose|j: int| 0 <= j < strings_view(v@).len() && strings_view(v@)[j] == s@;
            assert(v@[j]@ == s@);
        }
    }
    false
}

/// The default model of an added provider: the one given when not blank, else
/// the first listed model.
pub open spec fn chosen_default(models: Seq<Seq<char>>, default_model: Option<Seq<char>>) -> Option<Seq<char>> {
    if default_model is Some && trim(default_model->0).len() > 0 {
        default_model
    } else if models.len() > 0 {
        Some(models[0])
    } else {
        None
    }
}

/// An existing provider after `add_provider` named it again: non-blank name and
/// URL replace the old ones (trimmed), the key is replaced, a non-empty model
/// list replaces the old one, and a chosen default becomes the default model and
/// joins the list when missing.
pub open spec fn updated_provider(
    p: ProviderView,
    display_name: Seq<char>,
    base_url: Seq<char>,
    api_key: Seq<char>,
    models: Seq<Seq<char>>,
    dm: Option<Seq<char>>,
) -> ProviderView {
    let ms = if models.len() > 0 { models } else { p.models };
    ProviderView {
        id: p.id,
        display_name: if trim(display_name).len() > 0 { trim(display_name) } else { p.display_name },
        base_url: if trim(base_url).len() > 0 { trim(base_url) } else { p.base_url },
        protocol: p.protocol,
        api_key: Some(trim(api_key)),
        models: match dm {
            Some(m) => if ms.contains(m) { ms } else { ms.push(m) },
            None => ms,
        },
        default_model: match dm {
            Some(m) => m,
            None => p.default_model,
        },
    }
}

/// A provider that `add_provider` creates: protocol `auto`, the id as name when
/// none is given.
pub open spec fn new_provider(
    id: Seq<char>,
    display_name: Seq<char>,
    base_url: Seq<char>,
    api_key: Seq<char>,
    models: Seq<Seq<char>>,
    dm: Option<Seq<char>>,
) -> ProviderView {
    ProviderView {
        id,
        display_name: if trim(display_name).len() > 0 { trim(display_name) } else { id },
        base_url: trim(base_url),
        protocol: "auto"@,
        api_key: Some(trim(api_key)),
        models,
        default_model: match dm {
            Some(m) => m,
            None => seq![],
        },
    }
}

fn trimmed_string(s: &str) -> (r: String)
    ensures
        r@ == trim(s@),
{
    let t = trim_str(s);
    string_of(t.as_slice())
}

/// Adds a provider under an already clean id, or updates the first one with
/// that id; a chosen default model also becomes the active selection.
pub fn upsert_provider(
    book: ProviderBook,
    id: String,
    display_name: &str,
    base_url: &str,
    api_key: &str,
    models: Vec<String>,
    default_model: Option<String>,
) -> (r: ProviderBook)
    ensures
        ({
            let ps = providers_view(book.providers@);
            let ms = strings_view(models@);
            let dm = chosen_default(ms, opt_string_view(default_model));
            &&& match find_provider(ps, id@) {
                Some(i) => providers_view(r.providers@) == ps.update(
                    i,
                    updated_provider(ps[i], display_name@, base_url@, api_key@, ms, dm),
                ),
                None => providers_view(r.providers@) == ps.push(
                    new_provider(id@, display_name@, base_url@, api_key@, ms, dm),
                ),
            }
            &&& match dm {
                Some(m) => r.active_provider@ == id@ && active_view(r.active_provider_models)
                    == Some(seq![(id@, m)]),
                None => r.active_provider == book.active_provider && r.active_provider_models
                    == book.active_provider_models,
            }
        }),
{
    let ghost ps = providers_view(book.providers@);
    let ghost ms = strings_view(models@);
    let dm: Option<String> = match &default_model {
        Some(m) => {
            if trim_str(m.as_str()).len() > 0 {
                Some(m.clone())
            } else if models.len() > 0 {
                Some(models[0].clone())
            } else {
                None
            }
        },
        None => if models.len() > 0 {
            Some(models[0].clone())
        } else {
            None
        },
    };
    assert(opt_string_view(dm) == chosen_default(ms, opt_string_view(default_model)));
    let mut b = book;
    match find_provider_index(&b.providers, id.as_str()) {
        Some(idx) => {
            let prev = b.providers[idx].duplicate();
            let mut p = prev.duplicate();
            if trim_str(base_url).len() > 0 {
                p.base_url = trimmed_string(base_url);
            }
            if trim_str(display_name).len() > 0 {
                p.display_name = trimmed_string(display_name);
            }
            p.api_key = Some(trimmed_string(api_key));
            if models.len() > 0 {
                p.models = clone_strings(&models);
            }
            match &dm {
                Some(m) => {
                    p.default_model = m.clone();
                    if !holds_string(&p.models, m.as_str()) {
                        let ghost before = strings_view(p.models@);
                        p.models.push(m.clone());
                        assert(strings_view(p.models@) =~= before.push(m@));
                    }
                },
                None => {},
            }
            proof {
                assert(ps[idx as int] == prev@);
            }
            b.providers.set(idx, p);
            proof {
                assert(providers_view(b.providers@) =~= ps.update(
                    idx as int,
                    updated_provider(ps[idx as int], display_name@, base_url@, api_key@, ms, opt_string_view(dm)),
                ));
            }
        },
        None => {
            let p = ProviderConfig {
                id: id.clone(),
                display_name: if trim_str(display_name).len() > 0 {
                    trimmed_string(display_name)
                } else {
                    id.clone()
                },
                base_url: trimmed_string(base_url),
                protocol: "auto".to_string(),
                api_key: Some(trimmed_string(api_key)),
                models: clone_strings(&models),
                default_model: match &dm {
                    Some(m) => m.clone(),
                    None => String::new(),
                },
            };
            b.providers.push(p);
            proof {
                assert(providers_view(b.providers@) =~= ps.push(
                    new_provider(id@, display_name@, base_url@, api_key@, ms, opt_string_view(dm)),
                ));
            }
        },
    }
    match dm {
        Some(m) => {
            b.active_provider = id.clone();
            b.active_provider_models = only_active(id, m);
        },
        None => {},
    }
    b
}

/// `add_provider`: cleans the id as `sanitize_id` does, then adds or updates the
/// provider as `upsert_provider` does.
pub fn add_provider(
    book: ProviderBook,
    id: &str,
    display_name: &str,
    base_url: &str,
    api_key: &str,
    models: Vec<String>,
    default_model: Option<String>,
) -> (r: Result<ProviderBook, ProviderEditError>)
    ensures
        match clean_id(unicode_lowercase(trim(id@))) {
            None => r == Err::<ProviderBook, ProviderEditError>(ProviderEditError::InvalidId),
            Some(c) => r matches Ok(b) && ({
                let ps = providers_view(book.providers@);
                let ms = strings_view(models@);
                let dm = chosen_default(ms, opt_string_view(default_model));
                &&& match find_provider(ps, c) {
                    Some(i) => providers_view(b.providers@) == ps.update(
                        i,
                        updated_provider(ps[i], display_name@, base_url@, api_key@, ms, dm),
                    ),
                    None => providers_view(b.providers@) == ps.push(
                        new_provider(c, display_name@, base_url@, api_key@, ms, dm),
                    ),
                }
                &&& match dm {
                    Some(m) => b.active_provider@ == c && active_view(b.active_provider_models)
                        == Some(seq![(c, m)]),
                    None => b.active_provider == book.active_provider && b.active_provider_models
                        == book.active_provider_models,
                }
            }),
        },
{
    match sanitize_id(id) {
        Err(_) => Err(ProviderEditError::InvalidId),
        Ok(clean) => Ok(
            upsert_provider(book, clean, display_name, base_url, api_key, models, default_model),
        ),
    }
}

} // verus!

verus! {

// ---------------------------------------------------------------- discovered models

/// The `id`s of the entries of a models listing, in order.
pub open spec fn model_ids(items: Seq<crate::json::JsonValue>) -> Seq<Seq<char>>
    decreases items.len(),
{
    if items.len() == 0 {
        seq![]
    } else {
        let rest = model_ids(items.drop_last());
        match crate::json::as_str(crate::json::get(items.last(), "id"@)) {
            Some(id) => rest.push(id),
            None => rest,
        }
    }
}

/// The models a `/models` reply lists (its `data` array).
pub open spec fn listed_models(data: crate::json::JsonValue) -> Seq<Seq<char>> {
    match crate::json::get(data, "data"@) {
        Some(crate::json::JsonValue::Array(items)) => model_ids(items@),
        _ => seq![],
    }
}

/// In text order, equal texts side by side.
pub open spec fn sorted_texts(s: Seq<Seq<char>>) -> bool {
    forall|i: int, j: int| 0 <= i < j < s.len() ==> !crate::import_manage::text_lt(s[j], s[i])
}

proof fn lemma_not_lt_transitive(a: Seq<char>, b: Seq<char>, c: Seq<char>)
    requires
        !crate::import_manage::text_lt(b, a),
        !crate::import_manage::text_lt(c, b),
    ensures
        !crate::import_manage::text_lt(c, a),
{
    crate::import_manage::lemma_text_lt_total(a, b);
    crate::import_manage::lemma_text_lt_total(b, c);
    if crate::import_manage::text_lt(c, a) {
        if a == b {
            assert(crate::import_manage::text_lt(c, b));
        } else if b == c {
            assert(crate::import_manage::text_lt(b, a));
        } else {
            crate::import_manage::lemma_text_lt_transitive(a, b, c);
            crate::import_manage::lemma_text_lt_asymmetric(a, c);
        }
    }
}

/// The models a provider offers, from its `/models` reply, in text order.
pub fn discover_models(data: &crate::json::JsonValue) -> (r: Vec<String>)
    ensures
        sorted_texts(strings_view(r@)),
        strings_view(r@).to_multiset() == listed_models(*data).to_multiset(),
{
    let mut out: Vec<String> = Vec::new();
    match crate::json::json_get(data, "data") {
        Some(crate::json::JsonValue::Array(items)) => {
            let mut i: usize = 0;
            assert(items@.take(0) =~= Seq::<crate::json::JsonValue>::empty());
            assert(strings_view(out@) =~= Seq::<Seq<char>>::empty());
            while i < items.len()
                invariant
                    i <= items.len(),
                    sorted_texts(strings_view(out@)),
                    strings_view(out@).to_multiset() == model_ids(items@.take(i as int)).to_multiset(),
                decreases items.len() - i,
            {
                proof {
                    assert(items@.take(i + 1).drop_last() =~= items@.take(i as int));
                    assert(items@.take(i + 1).last() == items@[i as int]);
                }
                match crate::json::json_as_str(crate::json::json_get(&items[i], "id")) {
                    Some(id) => {
                        let idc = chars_of(id);
                        let mut p: usize = 0;
                        while p < out.len() && crate::import_manage::text_less(
                            chars_of(out[p].as_str()).as_slice(),
                            idc.as_slice(),
                        )
                            invariant
                                p <= out.len(),
                                idc@ == id@,
                                forall|t: int| 0 <= t < p ==> crate::import_manage::text_lt(#[trigger] out@[t]@, id@),
                            decreases out.len() - p,
                        {
                            p += 1;
                        }
                        let ghost before = strings_view(out@);
                        out.insert(p, id.to_string());
                        proof {
                            let now = strings_view(out@);
                            assert(now =~= before.insert(p as int, id@));
                            if p < before.len() {
                                assert(!crate::import_manage::text_lt(before[p as int], id@));
                            }
                            assert forall|a: int, b: int| 0 <= a < b < now.len() implies !crate::import_manage::text_lt(now[b], now[a]) by {
                                if a < p && b == p {
                                    assert(crate::import_manage::text_lt(before[a], id@));
                                    crate::import_manage::lemma_text_lt_asymmetric(before[a], id@);
                                } else if a == p && b > p {
                                    if b - 1 > p {
                                        lemma_not_lt_transitive(id@, before[p as int], before[b - 1]);
                                    }
                                } else if a < p && b > p {
                                    assert(!crate::import_manage::text_lt(before[b - 1], before[a]));
                                } else if a > p {
                                    assert(!crate::import_manage::text_lt(before[b - 1], before[a - 1]));
                                } else {
                                    assert(!crate::import_manage::text_lt(before[b], before[a]));
                                }
                            }
                            assert(model_ids(items@.take(i + 1)) == model_ids(items@.take(i as int)).push(id@));
                            vstd::seq_lib::to_multiset_insert(before, p as int, id@);
                            vstd::seq_lib::to_multiset_build(model_ids(items@.take(i as int)), id@);
                            assert(model_ids(items@.take(i as int)).push(id@).to_multiset()
                                == model_ids(items@.take(i as int)).to_multiset().insert(id@));
                        }
                    },
                    None => {
                        assert(model_ids(items@.take(i + 1)) == model_ids(items@.take(i as int)));
                    },
                }
                i += 1;
            }
            assert(items@.take(items.len() as int) =~= items@);
        },
        _ => {
            assert(strings_view(out@) =~= Seq::<Seq<char>>::empty());
        },
    }
    out
}

/// What discovering models says when the reply lists none.
pub fn no_models_message(url: &str) -> (r: String)
    ensures
        r@ == "no models returned from "@ + url@ + "（可能是非 OpenAI 兼容端点）"@,
{
    let mut m = chars_of("no models returned from ");
    crate::text::extend_str(&mut m, url);
    crate::text::extend_str(&mut m, "（可能是非 OpenAI 兼容端点）");
    string_of(m.as_slice())
}

} // verus!
