//! Factories of sample configurations and items.
use vstd::prelude::*;

use crate::config::{default_providers_spec, AppConfig, ConfigModule, ConfigSearchProvider};
use crate::items::{ApplicationItem, ListItem, WindowItem};
use crate::text::{chars_of, concat_chars, lowercase, replace_char, replace_chars, string_from, to_lowercase};

verus! {

/// The identifier form of a name: lower case, spaces turned into hyphens.
pub open spec fn slug(name: Seq<char>) -> Seq<char> {
    replace_char(lowercase(name), ' ', '-')
}

/// `a` is the sample application named `name` with description `description`.
pub open spec fn is_mock_application(a: ApplicationItem, name: Seq<char>, description: Seq<char>) -> bool {
    &&& a.id@ == "app-"@ + slug(name)
    &&& a.name@ == name
    &&& a.command@ == "/usr/bin/"@ + slug(name)
    &&& a.icon_path is None
    &&& a.description matches Some(d) && d@ == description
    &&& !a.terminal
    &&& a.desktop_path@ == "/usr/share/applications/"@ + slug(name) + ".desktop"@
}

/// The names of the sample applications.
pub open spec fn mock_names() -> Seq<Seq<char>> {
    seq!["Firefox"@, "Chrome"@, "Code"@, "Terminal"@, "Files"@]
}

fn slug_of(name: &str) -> (s: Vec<char>)
    ensures
        s@ == slug(name@),
{
    let lower = to_lowercase(name);
    replace_chars(&chars_of(lower.as_str()), ' ', '-')
}

fn joined(a: &str, b: &Vec<char>, c: &str) -> (s: String)
    ensures
        s@ == a@ + b@ + c@,
{
    let ab = concat_chars(&chars_of(a), b);
    let abc = concat_chars(&ab, &chars_of(c));
    string_from(&abc)
}

/// The default configuration.
pub fn mock_config() -> (c: AppConfig)
    ensures
        c.window_width == 600,
        c.window_height == 400,
        c.combined_modules is None,
        c.search_providers is Some,
        default_providers_spec(c.search_providers->0@),
        c.search_providers->0.len() == 4,
        c.show_best_match,
{
    AppConfig::default_config()
}

/// The default configuration with the given modules in the combined view.
pub fn mock_config_with_modules(modules: Vec<ConfigModule>) -> (c: AppConfig)
    ensures
        c.window_width == 600,
        c.window_height == 400,
        c.combined_modules == Some(modules),
        c.search_providers is Some,
        default_providers_spec(c.search_providers->0@),
        c.search_providers->0.len() == 4,
        c.show_best_match,
{
    AppConfig { combined_modules: Some(modules), ..AppConfig::default_config() }
}

/// A sample application named `name`, described as "`name` application".
pub fn mock_application(name: &str) -> (a: ApplicationItem)
    ensures
        is_mock_application(a, name@, name@ + " application"@),
{
    let description = joined(name, &Vec::new(), " application");
    proof {
        assert(name@ + Seq::<char>::empty() == name@);
    }
    mock_application_with_desc(name, description.as_str())
}

/// A sample application named `name` with the given description.
pub fn mock_application_with_desc(name: &str, description: &str) -> (a: ApplicationItem)
    ensures
        is_mock_application(a, name@, description@),
{
    let slug = slug_of(name);
    proof {
        reveal_strlit("");
        assert("app-"@ + slug@ + ""@ == "app-"@ + slug@);
        assert("/usr/bin/"@ + slug@ + ""@ == "/usr/bin/"@ + slug@);
    }
    ApplicationItem::new(
        joined("app-", &slug, ""),
        string_from(&chars_of(name)),
        joined("/usr/bin/", &slug, ""),
        None,
        Some(string_from(&chars_of(description))),
        false,
        joined("/usr/share/applications/", &slug, ".desktop"),
    )
}

/// A sample window titled `title` of application `app_id`, on workspace 1.
pub fn mock_window(title: &str, app_id: &str) -> (w: WindowItem)
    ensures
        w.id@ == "window-"@ + slug(title@),
        w.address@ == "0x12345"@,
        w.title@ == title@,
        w.app_id@ == app_id@,
        w.app_name@ == app_id@,
        w.icon_path is None,
        w.workspace == 1,
        !w.focused,
{
    let slug = slug_of(title);
    proof {
        reveal_strlit("");
        assert("window-"@ + slug@ + ""@ == "window-"@ + slug@);
    }
    WindowItem::new(
        joined("window-", &slug, ""),
        string_from(&chars_of("0x12345")),
        string_from(&chars_of(title)),
        string_from(&chars_of(app_id)),
        string_from(&chars_of(app_id)),
        None,
        1,
        false,
    )
}

/// Five sample applications: Firefox, Chrome, Code, Terminal and Files.
pub fn mock_applications() -> (v: Vec<ApplicationItem>)
    ensures
        v.len() == 5,
        forall|i: int|
            0 <= i < 5 ==> is_mock_application(
                #[trigger] v[i],
                mock_names()[i],
                mock_names()[i] + " application"@,
            ),
{
    let v = vec![
        mock_application("Firefox"),
        mock_application("Chrome"),
        mock_application("Code"),
        mock_application("Terminal"),
        mock_application("Files"),
    ];
    v
}

/// The sample applications as list items.
pub fn mock_list_items() -> (v: Vec<ListItem>)
    ensures
        v.len() == 5,
        forall|i: int|
            0 <= i < 5 ==> (#[trigger] v[i] matches ListItem::Application(a) && is_mock_application(
                a,
                mock_names()[i],
                mock_names()[i] + " application"@,
            )),
{
    let apps = mock_applications();
    let mut v: Vec<ListItem> = Vec::new();
    let mut i: usize = 0;
    while i < apps.len()
        invariant
            i <= apps.len() == 5,
            v.len() == i,
            forall|k: int| 0 <= k < i ==> #[trigger] v[k] == ListItem::Application(apps[k]),
        decreases apps.len() - i,
    {
        v.push(ListItem::Application(apps[i].clone()));
        i = i + 1;
    }
    v
}

/// A search provider entry named `name` with the given trigger, searching at
/// `https://<name in lower case>.example.com/search?q={query}`.
pub fn mock_search_provider(name: &str, trigger: &str) -> (p: ConfigSearchProvider)
    ensures
        p.name@ == name@,
        p.trigger@ == trigger@,
        p.url@ == "https://"@ + lowercase(name@) + ".example.com/search?q={query}"@,
        p.icon@ == "magnifying-glass"@,
{
    let lower = to_lowercase(name);
    ConfigSearchProvider {
        name: string_from(&chars_of(name)),
        trigger: string_from(&chars_of(trigger)),
        url: joined("https://", &chars_of(lower.as_str()), ".example.com/search?q={query}"),
        icon: string_from(&chars_of("magnifying-glass")),
    }
}

} // verus!
