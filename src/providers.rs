use vstd::prelude::*;

use crate::entities::OptionRow;
use crate::kind::{DocumentationFormat, NGLDataKind};
use crate::refresh::{cycle_failed, needs_reindex, provider_selected, shares_kind, SyncOutcome};
use crate::text::{occurs_at, starts_with_str, str_eq};

verus! {

/// Whether `source` names a remote location: it starts with `http://` or `https://`.
pub open spec fn is_url_spec(source: Seq<char>) -> bool {
    occurs_at(source, 0, "http://"@) || occurs_at(source, 0, "https://"@)
}

/// Whether `source` names a remote location rather than a local path.
pub fn is_url(source: &str) -> (r: bool)
    ensures
        r == is_url_spec(source@),
{
    starts_with_str(source, "http://") || starts_with_str(source, "https://")
}

/// What a provider declares about itself.
#[derive(Debug, Clone)]
pub struct ProviderInformation {
    /// The kinds the provider can emit; it is only asked for these.
    pub kinds: Vec<NGLDataKind>,
    /// The provider's unique name.
    pub name: String,
    /// Where the provider's data comes from.
    pub source: String,
    /// How long, in hours, a synced kind stays fresh.
    pub sync_interval_hours: Option<u32>,
}

/// One entry of the template configuration.
#[derive(Debug, Clone)]
pub struct TemplateProviderConfig {
    pub template: String,
    pub name: String,
    pub source: String,
    pub kinds: Vec<String>,
}

/// The lower-case form of a string, as `str::to_lowercase` computes it.
pub uninterp spec fn lowercase_of(s: Seq<char>) -> Seq<char>;

/// Relies on str::to_lowercase: the lower-case form depends on the characters alone.
#[verifier::external_body]
pub(crate) fn lowercase(s: &str) -> (r: String)
    ensures
        r@ == lowercase_of(s@),
{
    s.to_lowercase()
}

/// The kind that a lower-case configuration name stands for.
pub open spec fn config_kind_spec(lower: Seq<char>) -> Option<NGLDataKind> {
    if lower == "option"@ || lower == "options"@ {
        Some(NGLDataKind::Option)
    } else if lower == "function"@ || lower == "functions"@ {
        Some(NGLDataKind::Function)
    } else if lower == "example"@ || lower == "examples"@ {
        Some(NGLDataKind::Example)
    } else if lower == "guide"@ || lower == "guides"@ {
        Some(NGLDataKind::Guide)
    } else {
        None
    }
}

/// The kind that a lower-case configuration name stands for, if any.
pub fn config_kind(lower: &str) -> (r: Option<NGLDataKind>)
    ensures
        r == config_kind_spec(lower@),
{
    if str_eq(lower, "option") || str_eq(lower, "options") {
        Some(NGLDataKind::Option)
    } else if str_eq(lower, "function") || str_eq(lower, "functions") {
        Some(NGLDataKind::Function)
    } else if str_eq(lower, "example") || str_eq(lower, "examples") {
        Some(NGLDataKind::Example)
    } else if str_eq(lower, "guide") || str_eq(lower, "guides") {
        Some(NGLDataKind::Guide)
    } else {
        None
    }
}

/// Whether a template that admits `allowed` accepts the lower-case kind name: all
/// names where it restricts none, else a name it lists or one that starts with a
/// name it lists.
pub open spec fn kind_allowed_spec(lower: Seq<char>, allowed: Option<Seq<Seq<char>>>) -> bool {
    allowed is None || exists|i: int|
        0 <= i < allowed->0.len() && occurs_at(lower, 0, #[trigger] allowed->0[i])
}

proof fn lemma_allowed_by(lower: Seq<char>, names: Seq<Seq<char>>, i: int)
    requires
        0 <= i < names.len(),
        occurs_at(lower, 0, names[i]),
    ensures
        kind_allowed_spec(lower, Some(names)),
{
    let al: Option<Seq<Seq<char>>> = Some(names);
    assert(al->0 == names);
    assert(occurs_at(lower, 0, al->0[i]));
}

/// Whether a template that admits `allowed` accepts the lower-case kind name.
pub fn kind_allowed(lower: &str, allowed: &Option<Vec<String>>) -> (r: bool)
    ensures
        r == kind_allowed_spec(
            lower@,
            match allowed {
                Some(a) => Some(a@.map_values(|s: String| s@)),
                None => None,
            },
        ),
{
    match allowed {
        None => true,
        Some(a) => {
            let ghost names = a@.map_values(|s: String| s@);
            let mut i: usize = 0;
            while i < a.len()
                invariant
                    allowed is Some,
                    allowed->0@ == a@,
                    names == a@.map_values(|s: String| s@),
                    0 <= i <= a@.len(),
                    forall|j: int| 0 <= j < i ==> !occurs_at(lower@, 0, #[trigger] names[j]),
                decreases a@.len() - i,
            {
                if starts_with_str(lower, a[i].as_str()) {
                    proof {
                        assert(names.len() == a@.len());
                        assert(names[i as int] == a@[i as int]@);
                        assert(occurs_at(lower@, 0, names[i as int]));
                        lemma_allowed_by(lower@, names, i as int);
                    }
                    return true;
                }
                i = i + 1;
            }
            false
        },
    }
}

/// The kinds that lower-case configuration names declare, in order: each name that
/// the template accepts and that stands for a kind.
pub open spec fn declared_kinds(names: Seq<Seq<char>>, allowed: Option<Seq<Seq<char>>>) -> Seq<
    NGLDataKind,
>
    decreases names.len(),
{
    if names.len() == 0 {
        Seq::empty()
    } else {
        let rest = declared_kinds(names.drop_last(), allowed);
        let last = names.last();
        if kind_allowed_spec(last, allowed) && config_kind_spec(last) is Some {
            rest.push(config_kind_spec(last)->0)
        } else {
            rest
        }
    }
}

/// The kinds that lower-case configuration names declare for a template that admits
/// `allowed`; names it does not accept, and names of no kind, are dropped.
pub fn kinds_from_names(lowered: &Vec<String>, allowed: &Option<Vec<String>>) -> (r: Vec<
    NGLDataKind,
>)
    ensures
        r@ == declared_kinds(
            lowered@.map_values(|s: String| s@),
            match allowed {
                Some(a) => Some(a@.map_values(|s: String| s@)),
                None => None,
            },
        ),
{
    let ghost names = lowered@.map_values(|s: String| s@);
    let ghost al = match allowed {
        Some(a) => Some(a@.map_values(|s: String| s@)),
        None => None,
    };
    let mut r: Vec<NGLDataKind> = Vec::new();
    let mut i: usize = 0;
    assert(names.subrange(0, 0).len() == 0);
    while i < lowered.len()
        invariant
            names == lowered@.map_values(|s: String| s@),
            al == match allowed {
                Some(a) => Some(a@.map_values(|s: String| s@)),
                None => None,
            },
            0 <= i <= lowered@.len(),
            r@ == declared_kinds(names.subrange(0, i as int), al),
        decreases lowered@.len() - i,
    {
        let name = lowered[i].as_str();
        let ok = kind_allowed(name, allowed);
        let k = config_kind(name);
        proof {
            let next = names.subrange(0, i + 1);
            assert(next.drop_last() =~= names.subrange(0, i as int));
            assert(next.last() == lowered@[i as int]@);
        }
        if ok {
            if let Some(kind) = k {
                r.push(kind);
            }
        }
        i = i + 1;
    }
    assert(names.subrange(0, lowered@.len() as int) =~= names);
    r
}

impl TemplateProviderConfig {
    /// The provider information this entry declares: its name and source, the kinds it
    /// lists (case ignored) that the template accepts, and a daily sync interval.
    pub fn to_provider_info(&self, allowed_kinds: &Option<Vec<String>>) -> (r: ProviderInformation)
        ensures
            r.name@ == self.name@,
            r.source@ == self.source@,
            r.sync_interval_hours == Some(24u32),
            r.kinds@ == declared_kinds(
                self.kinds@.map_values(|s: String| lowercase_of(s@)),
                match allowed_kinds {
                    Some(a) => Some(a@.map_values(|s: String| s@)),
                    None => None,
                },
            ),
    {
        let mut lowered: Vec<String> = Vec::new();
        let mut i: usize = 0;
        while i < self.kinds.len()
            invariant
                0 <= i <= self.kinds@.len(),
                lowered@.len() == i,
                forall|j: int|
                    0 <= j < i ==> #[trigger] lowered@[j]@ == lowercase_of(self.kinds@[j]@),
            decreases self.kinds@.len() - i,
        {
            lowered.push(lowercase(self.kinds[i].as_str()));
            i = i + 1;
        }
        assert(lowered@.map_values(|s: String| s@) =~= self.kinds@.map_values(
            |s: String| lowercase_of(s@),
        ));
        let kinds = kinds_from_names(&lowered, allowed_kinds);
        ProviderInformation {
            kinds,
            name: self.name.clone(),
            source: self.source.clone(),
            sync_interval_hours: Some(24),
        }
    }
}

/// The templates that configuration entries can name.
#[derive(Debug, Clone, Copy, PartialEq, Eq, Structural)]
pub enum Template {
    RenderDocs,
    OptionsJson,
    NdgOptionsHtml,
    NdgSearchOptions,
}

/// The template a configuration entry names, if it is one of the known four.
pub open spec fn template_spec(name: Seq<char>) -> Option<Template> {
    if name == "renderdocs"@ {
        Some(Template::RenderDocs)
    } else if name == "options_json"@ {
        Some(Template::OptionsJson)
    } else if name == "ndg_options_html"@ {
        Some(Template::NdgOptionsHtml)
    } else if name == "ndg_search_options"@ {
        Some(Template::NdgSearchOptions)
    } else {
        None
    }
}

/// The template a configuration entry names, if known.
pub fn template_of(name: &str) -> (r: Option<Template>)
    ensures
        r == template_spec(name@),
{
    if str_eq(name, "renderdocs") {
        Some(Template::RenderDocs)
    } else if str_eq(name, "options_json") {
        Some(Template::OptionsJson)
    } else if str_eq(name, "ndg_options_html") {
        Some(Template::NdgOptionsHtml)
    } else if str_eq(name, "ndg_search_options") {
        Some(Template::NdgSearchOptions)
    } else {
        None
    }
}

/// Whether a template restricts the kinds it accepts to options.
pub open spec fn options_only(t: Template) -> bool {
    t == Template::OptionsJson || t == Template::NdgSearchOptions
}

/// The kind names a template accepts: `option` and `options` for the option-only
/// templates, any for the others.
pub fn allowed_kinds_of(t: Template) -> (r: Option<Vec<String>>)
    ensures
        options_only(t) ==> r is Some && r->0@.map_values(|s: String| s@) == seq![
            "option"@,
            "options"@,
        ],
        !options_only(t) ==> r is None,
{
    match t {
        Template::OptionsJson | Template::NdgSearchOptions => {
            let v = vec!["option".to_owned(), "options".to_owned()];
            assert(v@.map_values(|s: String| s@) =~= seq!["option"@, "options"@]);
            Some(v)
        },
        _ => None,
    }
}

/// A provider built from one configuration entry.
#[derive(Debug, Clone)]
pub struct ConfiguredProvider {
    pub template: Template,
    pub info: ProviderInformation,
}

/// The provider-declaring configuration document.
#[derive(Debug, Clone)]
pub struct MetaProviderConfig {
    pub template_providers: Vec<TemplateProviderConfig>,
}

/// Builds providers from a configuration document.
#[derive(Debug, Clone)]
pub struct MetaProvider {
    pub config: MetaProviderConfig,
}

impl MetaProvider {
    pub fn new(config: MetaProviderConfig) -> (r: MetaProvider)
        ensures
            r.config == config,
    {
        MetaProvider { config }
    }

    /// The providers the configuration declares, in order; entries that name an
    /// unknown template are skipped.
    pub fn build_providers(&self) -> (r: Vec<ConfiguredProvider>)
        ensures
            r@.len() <= self.config.template_providers@.len(),
            r@.map_values(|p: ConfiguredProvider| p.template) == known_templates(
                self.config.template_providers@.map_values(|c: TemplateProviderConfig| c.template@),
            ),
            r@.map_values(|p: ConfiguredProvider| provider_view(p)) == built(
                self.config.template_providers@,
            ),
    {
        let entries = &self.config.template_providers;
        let ghost names = entries@.map_values(|c: TemplateProviderConfig| c.template@);
        let mut r: Vec<ConfiguredProvider> = Vec::new();
        let mut i: usize = 0;
        assert(names.subrange(0, 0).len() == 0);
        assert(entries@.subrange(0, 0).len() == 0);
        while i < entries.len()
            invariant
                names == entries@.map_values(|c: TemplateProviderConfig| c.template@),
                0 <= i <= entries@.len(),
                r@.len() <= i,
                r@.map_values(|p: ConfiguredProvider| p.template) == known_templates(
                    names.subrange(0, i as int),
                ),
                r@.map_values(|p: ConfiguredProvider| provider_view(p)) == built(
                    entries@.subrange(0, i as int),
                ),
            decreases entries@.len() - i,
        {
            let cfg = &entries[i];
            let ghost before = r@;
            proof {
                let next = names.subrange(0, i + 1);
                assert(next.drop_last() =~= names.subrange(0, i as int));
                assert(next.last() == cfg.template@);
                let enext = entries@.subrange(0, i + 1);
                assert(enext.drop_last() =~= entries@.subrange(0, i as int));
                assert(enext.last() == *cfg);
            }
            if let Some(t) = template_of(cfg.template.as_str()) {
                let allowed = allowed_kinds_of(t);
                let info = cfg.to_provider_info(&allowed);
                proof {
                    assert(allowed_names(t) == match allowed {
                        Some(a) => Some(a@.map_values(|s: String| s@)),
                        None => None,
                    });
                }
                let p = ConfiguredProvider { template: t, info };
                assert(provider_view(p) == built_entry(*cfg, t));
                r.push(p);
                assert(r@.map_values(|p: ConfiguredProvider| p.template) =~= before.map_values(
                    |p: ConfiguredProvider| p.template,
                ).push(t));
                assert(r@.map_values(|p: ConfiguredProvider| provider_view(p)) =~= before.map_values(
                    |p: ConfiguredProvider| provider_view(p),
                ).push(built_entry(*cfg, t)));
            }
            i = i + 1;
        }
        assert(names.subrange(0, entries@.len() as int) =~= names);
        assert(entries@.subrange(0, entries@.len() as int) =~= entries@);
        r
    }
}

/// The kind names a template accepts, as plain values.
pub open spec fn allowed_names(t: Template) -> Option<Seq<Seq<char>>> {
    if options_only(t) {
        Some(seq!["option"@, "options"@])
    } else {
        None
    }
}

/// A built provider as plain values: template, name, source, kinds, sync interval.
pub open spec fn provider_view(p: ConfiguredProvider) -> (
    Template,
    Seq<char>,
    Seq<char>,
    Seq<NGLDataKind>,
    Option<u32>,
) {
    (p.template, p.info.name@, p.info.source@, p.info.kinds@, p.info.sync_interval_hours)
}

/// The provider one entry builds with template `t`.
pub open spec fn built_entry(c: TemplateProviderConfig, t: Template) -> (
    Template,
    Seq<char>,
    Seq<char>,
    Seq<NGLDataKind>,
    Option<u32>,
) {
    (
        t,
        c.name@,
        c.source@,
        declared_kinds(c.kinds@.map_values(|s: String| lowercase_of(s@)), allowed_names(t)),
        Some(24u32),
    )
}

/// The providers a list of entries builds: one per entry with a known template.
pub open spec fn built(entries: Seq<TemplateProviderConfig>) -> Seq<
    (Template, Seq<char>, Seq<char>, Seq<NGLDataKind>, Option<u32>),
>
    decreases entries.len(),
{
    if entries.len() == 0 {
        Seq::empty()
    } else {
        let rest = built(entries.drop_last());
        match template_spec(entries.last().template@) {
            Some(t) => rest.push(built_entry(entries.last(), t)),
            None => rest,
        }
    }
}

/// The known templates among a list of template names, in order.
pub open spec fn known_templates(names: Seq<Seq<char>>) -> Seq<Template>
    decreases names.len(),
{
    if names.len() == 0 {
        Seq::empty()
    } else {
        let rest = known_templates(names.drop_last());
        match template_spec(names.last()) {
            Some(t) => rest.push(t),
            None => rest,
        }
    }
}

/// The text with HTML character references decoded, as `html_escape` decodes it.
pub uninterp spec fn html_decoded(s: Seq<char>) -> Seq<char>;

/// Relies on html_escape::decode_html_entities: the result depends on the text alone,
/// and a text without `&` comes back unchanged.
#[verifier::external_body]
pub(crate) fn decode_entities(s: &str) -> (r: String)
    ensures
        r@ == html_decoded(s@),
        !s@.contains('&') ==> r@ == s@,
{
    html_escape::decode_html_entities(s).into_owned()
}

/// A provider of options from an ndg search index.
#[derive(Debug, Clone)]
pub struct NdgSearchOptionProvider {
    pub info: ProviderInformation,
}

/// The title prefix that marks an option entry of an ndg search index.
pub open spec fn option_title_prefix() -> Seq<char> {
    "Option: "@
}

impl NdgSearchOptionProvider {
    /// A provider for one configuration entry; it accepts only option kinds.
    pub fn from_config(cfg: &TemplateProviderConfig) -> (r: NdgSearchOptionProvider)
        ensures
            r.info.name@ == cfg.name@,
            r.info.source@ == cfg.source@,
            r.info.sync_interval_hours == Some(24u32),
            r.info.kinds@ == declared_kinds(
                cfg.kinds@.map_values(|s: String| lowercase_of(s@)),
                Some(seq!["option"@, "options"@]),
            ),
    {
        let allowed = allowed_kinds_of(Template::NdgSearchOptions);
        NdgSearchOptionProvider { info: cfg.to_provider_info(&allowed) }
    }

    /// The option row for one index entry `(title, content)`, where the title marks an
    /// option: the name after the prefix and the content, both with character
    /// references decoded.
    pub fn option_row(&self, title: &str, content: &str) -> (r: Option<OptionRow>)
        ensures
            occurs_at(title@, 0, option_title_prefix()) <==> r is Some,
            r is Some ==> ({
                let row = r->0;
                &&& row.provider_name@ == self.info.name@
                &&& row.name@ == html_decoded(title@.subrange(8, title@.len() as int))
                &&& row.data@ == html_decoded(content@)
                &&& row.format == DocumentationFormat::Markdown
                &&& row.type_signature is None
                &&& row.default_value is None
            }),
    {
        proof {
            reveal_strlit("Option: ");
        }
        if !starts_with_str(title, "Option: ") {
            return None;
        }
        let name = title.substring_char(8, title.unicode_len());
        Some(
            OptionRow {
                provider_name: self.info.name.clone(),
                name: decode_entities(name),
                type_signature: None,
                default_value: None,
                format: DocumentationFormat::Markdown,
                data: decode_entities(content),
            },
        )
    }
}

/// The option row for one entry of an `options.json` document: its name, its type,
/// its default (the default's `text` where it has one, else the default as written),
/// and the whole entry as data.
pub fn options_json_row(
    provider_name: &str,
    name: String,
    option_type: Option<String>,
    default_text: Option<String>,
    default_raw: Option<String>,
    data: String,
) -> (r: OptionRow)
    ensures
        r.provider_name@ == provider_name@,
        r.name == name,
        r.type_signature == option_type,
        r.default_value == match default_text {
            Some(t) => Some(t),
            None => default_raw,
        },
        r.format == DocumentationFormat::Markdown,
        r.data == data,
{
    let default_value = match default_text {
        Some(t) => Some(t),
        None => default_raw,
    };
    OptionRow {
        provider_name: provider_name.to_owned(),
        name,
        type_signature: option_type,
        default_value,
        format: DocumentationFormat::Markdown,
        data,
    }
}

/// The decisions of a sync cycle over all registered providers.
pub struct ProviderRegistry;

impl ProviderRegistry {
    /// Whether a provider takes part in a request: it declares a requested kind, or the
    /// request names no kinds.
    pub fn selects(requested: &Option<Vec<NGLDataKind>>, declared: &Vec<NGLDataKind>) -> (r: bool)
        ensures
            requested is None ==> r,
            requested is Some ==> r == shares_kind(requested->0@, declared@),
    {
        provider_selected(requested, declared)
    }

    /// Whether the search index is rebuilt after the cycle: some provider synced.
    pub fn reindex_after(outcomes: &Vec<SyncOutcome>) -> (r: bool)
        ensures
            r == outcomes@.contains(SyncOutcome::Synced),
    {
        needs_reindex(outcomes)
    }

    /// Whether the cycle fails as a whole: every provider that ran failed.
    pub fn cycle_fails(outcomes: &Vec<SyncOutcome>) -> (r: bool)
        ensures
            r == (outcomes@.len() > 0 && forall|j: int|
                0 <= j < outcomes@.len() ==> outcomes@[j] == SyncOutcome::Failed),
    {
        cycle_failed(outcomes)
    }
}

} // verus!
