//! Configuration values that the launcher logic reads.
use vstd::prelude::*;

use crate::text::{chars_of, string_from};

verus! {

/// A module that can appear in the combined view.
#[derive(Clone, Copy, Debug, PartialEq, Eq, Structural)]
pub enum ConfigModule {
    Applications,
    Windows,
    Actions,
    Emojis,
    Clipboard,
    Themes,
    Search,
    Ai,
    Calculator,
}

/// A launcher mode (the modes cycled with ctrl-tab).
#[derive(Clone, Copy, Debug, PartialEq, Eq, Structural)]
pub enum LauncherMode {
    Combined,
    Applications,
    Windows,
    Actions,
    Emojis,
    Clipboard,
    Themes,
    Ai,
    Search,
    Calculator,
}

/// Scoring adjustments of the fuzzy filter.
///
/// The penalty and the multipliers are fractions, held in thousandths.
#[derive(Clone, Copy, Debug)]
pub struct FuzzyMatchConfig {
    pub exact_match_bonus: i64,
    pub prefix_match_bonus: i64,
    pub word_prefix_bonus: i64,
    pub contiguity_bonus: i64,
    pub description_penalty_permille: i64,
    pub action_score_multiplier_permille: i64,
    pub submenu_score_multiplier_permille: i64,
}

/// Bound on every bonus and factor of a fuzzy match configuration: scores are computed
/// in `i64`, a factor scaling a score in thousandths, and within this bound no sum or
/// product of a score with bonuses and factors leaves the `i64` range.
pub open spec fn config_bound() -> int {
    0x1_0000_0000
}

impl FuzzyMatchConfig {
    /// The configuration's values lie within the bounds that keep scoring free of overflow.
    pub open spec fn wf(self) -> bool {
        &&& -config_bound() <= self.exact_match_bonus <= config_bound()
        &&& -config_bound() <= self.prefix_match_bonus <= config_bound()
        &&& -config_bound() <= self.word_prefix_bonus <= config_bound()
        &&& -config_bound() <= self.contiguity_bonus <= config_bound()
        &&& -config_bound() <= self.description_penalty_permille <= config_bound()
        &&& -config_bound() <= self.action_score_multiplier_permille <= config_bound()
        &&& -config_bound() <= self.submenu_score_multiplier_permille <= config_bound()
    }

    /// The default scoring adjustments.
    pub fn default_config() -> (c: FuzzyMatchConfig)
        ensures
            c.wf(),
            c.exact_match_bonus == 100,
            c.prefix_match_bonus == 50,
            c.word_prefix_bonus == 30,
            c.contiguity_bonus == 20,
            c.description_penalty_permille == 500,
            c.action_score_multiplier_permille == 800,
            c.submenu_score_multiplier_permille == 800,
    {
        FuzzyMatchConfig {
            exact_match_bonus: 100,
            prefix_match_bonus: 50,
            word_prefix_bonus: 30,
            contiguity_bonus: 20,
            description_penalty_permille: 500,
            action_score_multiplier_permille: 800,
            submenu_score_multiplier_permille: 800,
        }
    }
}

impl Default for FuzzyMatchConfig {
    fn default() -> (c: FuzzyMatchConfig)
        ensures
            c.wf(),
            c.exact_match_bonus == 100,
            c.prefix_match_bonus == 50,
            c.word_prefix_bonus == 30,
            c.contiguity_bonus == 20,
            c.description_penalty_permille == 500,
            c.action_score_multiplier_permille == 800,
            c.submenu_score_multiplier_permille == 800,
    {
        FuzzyMatchConfig::default_config()
    }
}

/// A search provider as written in the configuration.
#[derive(Clone, Debug, PartialEq, Eq)]
pub struct ConfigSearchProvider {
    pub name: String,
    pub trigger: String,
    pub url: String,
    pub icon: String,
}

/// The application configuration values that the library reads.
#[derive(Clone, Debug)]
pub struct AppConfig {
    /// Window width in logical pixels.
    pub window_width: u32,
    /// Window height in logical pixels.
    pub window_height: u32,
    /// Modules of the combined view, in display order.
    pub combined_modules: Option<Vec<ConfigModule>>,
    /// Configured search providers.
    pub search_providers: Option<Vec<ConfigSearchProvider>>,
    /// Whether the best match is promoted to a section of its own.
    pub show_best_match: bool,
}

/// The modules of the combined view when the configuration names none.
pub open spec fn default_combined_modules_spec() -> Seq<ConfigModule> {
    seq![
        ConfigModule::Calculator,
        ConfigModule::Windows,
        ConfigModule::Applications,
        ConfigModule::Emojis,
        ConfigModule::Clipboard,
        ConfigModule::Themes,
        ConfigModule::Actions,
        ConfigModule::Search,
        ConfigModule::Ai,
    ]
}

/// The modules of the combined view when the configuration names none.
pub fn default_combined_modules() -> (v: Vec<ConfigModule>)
    ensures
        v@ == default_combined_modules_spec(),
{
    let v = vec![
        ConfigModule::Calculator,
        ConfigModule::Windows,
        ConfigModule::Applications,
        ConfigModule::Emojis,
        ConfigModule::Clipboard,
        ConfigModule::Themes,
        ConfigModule::Actions,
        ConfigModule::Search,
        ConfigModule::Ai,
    ];
    assert(v@ == default_combined_modules_spec());
    v
}

/// The modules of the combined view that a configuration selects.
pub fn get_combined_modules(config: &AppConfig) -> (v: Vec<ConfigModule>)
    ensures
        v@ == (match config.combined_modules {
            Some(m) => m@,
            None => default_combined_modules_spec(),
        }),
{
    match &config.combined_modules {
        Some(m) => m.clone(),
        None => default_combined_modules(),
    }
}

fn provider(name: &str, trigger: &str, url: &str, icon: &str) -> (p: ConfigSearchProvider)
    ensures
        p.name@ == name@,
        p.trigger@ == trigger@,
        p.url@ == url@,
        p.icon@ == icon@,
{
    ConfigSearchProvider {
        name: string_from(&chars_of(name)),
        trigger: string_from(&chars_of(trigger)),
        url: string_from(&chars_of(url)),
        icon: string_from(&chars_of(icon)),
    }
}

/// Whether `p` has exactly the given name, trigger, URL template and icon name.
pub open spec fn provider_is(
    p: ConfigSearchProvider,
    name: Seq<char>,
    trigger: Seq<char>,
    url: Seq<char>,
    icon: Seq<char>,
) -> bool {
    &&& p.name@ == name
    &&& p.trigger@ == trigger
    &&& p.url@ == url
    &&& p.icon@ == icon
}

/// The search providers of the default configuration.
pub open spec fn default_providers_spec(v: Seq<ConfigSearchProvider>) -> bool {
    &&& v.len() == 4
    &&& provider_is(v[0], "Google"@, "!g"@, "https://www.google.com/search?q={query}"@, "google-logo"@)
    &&& provider_is(v[1], "DuckDuckGo"@, "!ddg"@, "https://duckduckgo.com/?q={query}"@, "magnifying-glass"@)
    &&& provider_is(
        v[2],
        "Wikipedia"@,
        "!wiki"@,
        "https://en.wikipedia.org/wiki/Special:Search?search={query}"@,
        "book-open"@,
    )
    &&& provider_is(
        v[3],
        "YouTube"@,
        "!yt"@,
        "https://www.youtube.com/results?search_query={query}"@,
        "youtube-logo"@,
    )
}

/// The search providers of the default configuration.
pub fn default_search_providers() -> (v: Vec<ConfigSearchProvider>)
    ensures
        default_providers_spec(v@),
        v.len() == 4,
        v[0].name@ == "Google"@ && v[0].trigger@ == "!g"@,
        v[1].name@ == "DuckDuckGo"@ && v[1].trigger@ == "!ddg"@,
        v[2].name@ == "Wikipedia"@ && v[2].trigger@ == "!wiki"@,
        v[3].name@ == "YouTube"@ && v[3].trigger@ == "!yt"@,
{
    let mut v: Vec<ConfigSearchProvider> = Vec::new();
    v.push(provider("Google", "!g", "https://www.google.com/search?q={query}", "google-logo"));
    v.push(provider("DuckDuckGo", "!ddg", "https://duckduckgo.com/?q={query}", "magnifying-glass"));
    v.push(
        provider(
            "Wikipedia",
            "!wiki",
            "https://en.wikipedia.org/wiki/Special:Search?search={query}",
            "book-open",
        ),
    );
    v.push(
        provider("YouTube", "!yt", "https://www.youtube.com/results?search_query={query}", "youtube-logo"),
    );
    v
}

impl AppConfig {
    /// The default configuration.
    pub fn default_config() -> (c: AppConfig)
        ensures
            c.window_width == 600,
            c.window_height == 400,
            c.combined_modules is None,
            c.search_providers is Some,
            default_providers_spec(c.search_providers->0@),
            c.search_providers->0.len() == 4,
            c.search_providers->0[0].name@ == "Google"@,
            c.search_providers->0[0].trigger@ == "!g"@,
            c.search_providers->0[1].name@ == "DuckDuckGo"@,
            c.search_providers->0[1].trigger@ == "!ddg"@,
            c.search_providers->0[2].name@ == "Wikipedia"@,
            c.search_providers->0[2].trigger@ == "!wiki"@,
            c.search_providers->0[3].name@ == "YouTube"@,
            c.search_providers->0[3].trigger@ == "!yt"@,
            c.show_best_match,
    {
        AppConfig {
            window_width: 600,
            window_height: 400,
            combined_modules: None,
            search_providers: Some(default_search_providers()),
            show_best_match: true,
        }
    }
}

impl Default for AppConfig {
    fn default() -> (c: AppConfig)
        ensures
            c.window_width == 600,
            c.window_height == 400,
            c.combined_modules is None,
            c.search_providers is Some,
            default_providers_spec(c.search_providers->0@),
            c.search_providers->0.len() == 4,
            c.show_best_match,
    {
        AppConfig::default_config()
    }
}

} // verus!
