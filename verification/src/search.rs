//! Search providers and the detection of search triggers in a query.
use vstd::prelude::*;
use vstd::utf8::encode_utf8;

use crate::config::{AppConfig, ConfigSearchProvider};
use crate::icons::{icon_named, PhosphorIcon};
use crate::text::{
    ascii_lower, chars_of, has_prefix, replace_all, replace_block, string_from, sub_vec,
    to_ascii_lowercase, trim, trim_chars, trim_str, starts_with, lemma_trim_is_trimmed,
    lemma_trimmed_fixed,
};

verus! {

/// A search provider.
#[derive(Debug, PartialEq, Eq)]
pub struct SearchProvider {
    /// The provider name (e.g. "Google").
    pub name: String,
    /// The trigger (e.g. "!g").
    pub trigger: String,
    /// The URL template with a `{query}` placeholder.
    pub url_template: String,
    /// The icon shown for the provider.
    pub icon: PhosphorIcon,
}

impl Clone for SearchProvider {
    fn clone(&self) -> (r: Self)
        ensures
            r == *self,
    {
        SearchProvider {
            name: self.name.clone(),
            trigger: self.trigger.clone(),
            url_template: self.url_template.clone(),
            icon: self.icon,
        }
    }
}

/// Whether a URL may carry byte `b` unescaped (alphanumerics and `-`, `_`, `.`, `~`).
pub open spec fn url_safe_byte(b: u8) -> bool {
    ||| 0x30 <= b <= 0x39
    ||| 0x41 <= b <= 0x5a
    ||| 0x61 <= b <= 0x7a
    ||| b == 0x2d
    ||| b == 0x2e
    ||| b == 0x5f
    ||| b == 0x7e
}

/// Upper-case hexadecimal digit of a value below 16.
pub open spec fn hex_digit_upper(d: u8) -> char {
    if d < 10 {
        ((0x30 + d) as u8) as char
    } else {
        ((0x41 - 10 + d) as u8) as char
    }
}

/// Percent-encoding of a byte sequence: safe bytes kept, others written `%XX`.
pub open spec fn percent_encode(bs: Seq<u8>) -> Seq<char>
    decreases bs.len(),
{
    if bs.len() == 0 {
        Seq::empty()
    } else {
        let b = bs[0];
        let head = if url_safe_byte(b) {
            seq![b as char]
        } else {
            seq!['%', hex_digit_upper(b / 16), hex_digit_upper(b % 16)]
        };
        head + percent_encode(bs.drop_first())
    }
}

/// `urlencoding::encode`: percent-encodes every byte of the UTF-8 encoding of `data`
/// except ASCII alphanumerics and `-`, `_`, `.`, `~`, with upper-case hex digits, as
/// the crate's documentation and `encode_into` state.
#[verifier::external_body]
fn url_encode(data: &str) -> (r: String)
    ensures
        r@ == percent_encode(encode_utf8(data@)),
{
    urlencoding::encode(data).into_owned()
}

impl SearchProvider {
    /// The search URL for `query`: the template with every `{query}` replaced by the
    /// percent-encoded query.
    pub fn build_url(&self, query: &str) -> (url: String)
        ensures
            url@ == replace_all(
                self.url_template@,
                "{query}"@,
                percent_encode(encode_utf8(query@)),
            ),
    {
        let encoded = url_encode(query);
        let pat = chars_of("{query}");
        proof {
            reveal_strlit("{query}");
        }
        let template = chars_of(self.url_template.as_str());
        let out = replace_block(&template, &pat, &chars_of(encoded.as_str()));
        string_from(&out)
    }
}

/// The icon a provider gets for a configured icon name: the named icon when the
/// trimmed, ASCII-lowered name is non-empty and known, else the magnifying glass.
pub open spec fn provider_icon_spec(icon_name: Option<Seq<char>>) -> PhosphorIcon {
    match icon_name {
        Some(n) => {
            let norm = ascii_lower(trim(n));
            if norm.len() > 0 && icon_named(norm) is Some {
                icon_named(norm)->0
            } else {
                PhosphorIcon::MagnifyingGlass
            }
        },
        None => PhosphorIcon::MagnifyingGlass,
    }
}

/// The icon for a configured provider.
pub fn provider_icon(provider_name: &str, icon_name: Option<&String>) -> (icon: PhosphorIcon)
    ensures
        icon == provider_icon_spec(
            match icon_name {
                Some(n) => Some(n@),
                None => None,
            },
        ),
{
    if let Some(icon_name) = icon_name {
        let trimmed = trim_str(icon_name.as_str());
        let normalized = to_ascii_lowercase(&trimmed);
        if normalized.len() > 0 {
            if let Some(icon) = PhosphorIcon::from_name(&normalized) {
                return icon;
            }
        }
    }
    PhosphorIcon::MagnifyingGlass
}

/// The provider that a configured search provider describes.
pub open spec fn provider_from_config(c: ConfigSearchProvider, p: SearchProvider) -> bool {
    &&& p.name@ == c.name@
    &&& p.trigger@ == c.trigger@
    &&& p.url_template@ == c.url@
    &&& p.icon == provider_icon_spec(Some(c.icon@))
}

/// All search providers that the configuration names, in its order.
pub fn get_providers(config: &AppConfig) -> (providers: Vec<SearchProvider>)
    ensures
        match config.search_providers {
            Some(custom) => {
                &&& providers.len() == custom.len()
                &&& forall|i: int|
                    0 <= i < custom.len() ==> provider_from_config(
                        #[trigger] custom[i],
                        providers[i],
                    )
            },
            None => providers.len() == 0,
        },
{
    let mut providers: Vec<SearchProvider> = Vec::new();
    if let Some(custom) = &config.search_providers {
        let mut i: usize = 0;
        while i < custom.len()
            invariant
                i <= custom.len(),
                providers.len() == i,
                forall|k: int| 0 <= k < i ==> provider_from_config(#[trigger] custom[k], providers[k]),
            decreases custom.len() - i,
        {
            let c = &custom[i];
            let icon = provider_icon(c.name.as_str(), Some(&c.icon));
            providers.push(
                SearchProvider {
                    name: c.name.clone(),
                    trigger: c.trigger.clone(),
                    url_template: c.url.clone(),
                    icon,
                },
            );
            i = i + 1;
        }
    }
    providers
}

/// Index of the first provider whose trigger equals `trigger`, at or after `start`.
pub open spec fn first_with_trigger(ps: Seq<SearchProvider>, trigger: Seq<char>, start: int) -> Option<int>
    decreases ps.len() - start,
{
    if start >= ps.len() || start < 0 {
        None
    } else if ps[start].trigger@ == trigger {
        Some(start)
    } else {
        first_with_trigger(ps, trigger, start + 1)
    }
}

/// The first provider whose trigger is `trigger`.
pub fn find_provider_by_trigger(providers: &Vec<SearchProvider>, trigger: &str) -> (r: Option<SearchProvider>)
    ensures
        match first_with_trigger(providers@, trigger@, 0) {
            Some(i) => r == Some(providers@[i]),
            None => r is None,
        },
{
    let t = chars_of(trigger);
    let mut i: usize = 0;
    while i < providers.len()
        invariant
            i <= providers.len(),
            t@ == trigger@,
            first_with_trigger(providers@, trigger@, 0) == first_with_trigger(
                providers@,
                trigger@,
                i as int,
            ),
        decreases providers.len() - i,
    {
        let p = chars_of(providers[i].trigger.as_str());
        if crate::text::chars_eq(&p, &t) {
            return Some(providers[i].clone());
        }
        i = i + 1;
    }
    None
}

/// The result of parsing a search query.
#[derive(Debug, Clone, PartialEq, Eq)]
pub enum SearchDetection {
    /// A provider was triggered (e.g. "!g rust").
    Triggered { provider: SearchProvider, query: String },
    /// No trigger: every provider may be offered as a fallback.
    Fallback { query: String },
    /// Not a search query.
    NotSearch,
}

/// Index of the first provider whose trigger is a prefix of `t`, at or after `start`.
pub open spec fn first_trigger_prefix(ps: Seq<SearchProvider>, t: Seq<char>, start: int) -> Option<int>
    decreases ps.len() - start,
{
    if start >= ps.len() || start < 0 {
        None
    } else if has_prefix(t, ps[start].trigger@) {
        Some(start)
    } else {
        first_trigger_prefix(ps, t, start + 1)
    }
}

/// What `detect_search` gives for `input`: `None` for blank input; for the first
/// provider whose trigger starts the trimmed input, `Triggered` with the trimmed rest,
/// or `None` when the rest is blank; `Fallback` with the trimmed input otherwise.
pub open spec fn detection_matches(
    input: Seq<char>,
    providers: Seq<SearchProvider>,
    d: SearchDetection,
) -> bool {
    let t = trim(input);
    if t.len() == 0 {
        d is NotSearch
    } else {
        match first_trigger_prefix(providers, t, 0) {
            Some(i) => {
                let q = trim(t.subrange(providers[i].trigger@.len() as int, t.len() as int));
                if q.len() == 0 {
                    d is NotSearch
                } else {
                    d matches SearchDetection::Triggered { provider, query } && provider
                        == providers[i] && query@ == q
                }
            },
            None => d matches SearchDetection::Fallback { query } && query@ == t,
        }
    }
}

/// Detect whether `input` starts with a search trigger and parse it.
pub fn detect_search(input: &str, providers: &Vec<SearchProvider>) -> (d: SearchDetection)
    ensures
        detection_matches(input@, providers@, d),
{
    let trimmed = trim_str(input);
    if trimmed.len() == 0 {
        return SearchDetection::NotSearch;
    }
    let mut i: usize = 0;
    while i < providers.len()
        invariant
            i <= providers.len(),
            trimmed@ == trim(input@),
            first_trigger_prefix(providers@, trimmed@, 0) == first_trigger_prefix(
                providers@,
                trimmed@,
                i as int,
            ),
        decreases providers.len() - i,
    {
        let trig = chars_of(providers[i].trigger.as_str());
        if starts_with(&trimmed, &trig) {
            let rest = sub_vec(&trimmed, trig.len(), trimmed.len());
            let query = trim_chars(&rest);
            if query.len() == 0 {
                return SearchDetection::NotSearch;
            }
            return SearchDetection::Triggered {
                provider: providers[i].clone(),
                query: string_from(&query),
            };
        }
        i = i + 1;
    }
    SearchDetection::Fallback { query: string_from(&trimmed) }
}

/// A detected search query is never blank and has no whitespace at either end.
pub proof fn law_detected_query_trimmed(
    input: Seq<char>,
    providers: Seq<SearchProvider>,
    d: SearchDetection,
)
    requires
        detection_matches(input, providers, d),
    ensures
        d matches SearchDetection::Triggered { query, .. } ==> query@.len() > 0 && trim(query@)
            == query@,
        d matches SearchDetection::Fallback { query } ==> query@.len() > 0 && trim(query@)
            == query@,
{
    let t = trim(input);
    lemma_trim_is_trimmed(input);
    if t.len() > 0 {
        match first_trigger_prefix(providers, t, 0) {
            Some(i) => {
                let q = trim(t.subrange(providers[i].trigger@.len() as int, t.len() as int));
                lemma_trim_is_trimmed(t.subrange(providers[i].trigger@.len() as int, t.len() as int));
                lemma_trimmed_fixed(q);
            },
            None => {
                lemma_trimmed_fixed(t);
            },
        }
    }
}

} // verus!
