//! Site configuration, with a built-in default for every setting.
use vstd::prelude::*;
use std::collections::HashMap;

verus! {

/// The site's settings.
pub struct Marmite {
    pub name: String,
    pub tagline: String,
    pub url: String,
    pub footer: String,
    pub pagination: u32,
    pub list_title: String,
    pub pages_title: String,
    pub tags_title: String,
    pub archives_title: String,
    pub content_path: String,
    pub site_path: String,
    pub templates_path: String,
    pub static_path: String,
    pub media_path: String,
    pub card_image: String,
    pub logo_image: String,
    /// Navigation entries as (label, url) pairs.
    pub menu: Option<Vec<(String, String)>>,
    /// Extra template variables.
    pub data: Option<HashMap<String, String>>,
}

/// Settings as a configuration document gives them: each one may be absent.
pub struct MarmiteInput {
    pub name: Option<String>,
    pub tagline: Option<String>,
    pub url: Option<String>,
    pub footer: Option<String>,
    pub pagination: Option<u32>,
    pub list_title: Option<String>,
    pub pages_title: Option<String>,
    pub tags_title: Option<String>,
    pub archives_title: Option<String>,
    pub content_path: Option<String>,
    pub site_path: Option<String>,
    pub templates_path: Option<String>,
    pub static_path: Option<String>,
    pub media_path: Option<String>,
    pub card_image: Option<String>,
    pub logo_image: Option<String>,
    pub menu: Option<Option<Vec<(String, String)>>>,
    pub data: Option<Option<HashMap<String, String>>>,
}

/// The default `name` setting.
pub fn default_name() -> (r: String)
    ensures
        r@ == "Home"@,
{
    String::from_str("Home")
}

/// The default `tagline` setting.
pub fn default_tagline() -> (r: String)
    ensures
        r@ == "Site generated from markdown content"@,
{
    String::from_str("Site generated from markdown content")
}

/// The default `url` setting.
pub fn default_url() -> (r: String)
    ensures
        r@ == "https://example.com"@,
{
    String::from_str("https://example.com")
}

/// The default `footer` setting.
pub fn default_footer() -> (r: String)
    ensures
        r@ == r#"<a href="https://creativecommons.org/licenses/by-nc-sa/4.0/">CC-BY_NC-SA</a> | Site generated with <a href="https://github.com/rochacbruno/marmite">Marmite</a>"#@,
{
    String::from_str(r#"<a href="https://creativecommons.org/licenses/by-nc-sa/4.0/">CC-BY_NC-SA</a> | Site generated with <a href="https://github.com/rochacbruno/marmite">Marmite</a>"#)
}

/// The default `pagination` setting.
pub fn default_pagination() -> (r: u32)
    ensures
        r == 10,
{
    10
}

/// The default `list_title` setting.
pub fn default_list_title() -> (r: String)
    ensures
        r@ == "Posts"@,
{
    String::from_str("Posts")
}

/// The default `pages_title` setting.
pub fn default_pages_title() -> (r: String)
    ensures
        r@ == "Pages"@,
{
    String::from_str("Pages")
}

/// The default `tags_title` setting.
pub fn default_tags_title() -> (r: String)
    ensures
        r@ == "Tags"@,
{
    String::from_str("Tags")
}

/// The default `archives_title` setting.
pub fn default_archives_title() -> (r: String)
    ensures
        r@ == "Archive"@,
{
    String::from_str("Archive")
}

/// The default `content_path` setting.
pub fn default_content_path() -> (r: String)
    ensures
        r@ == "content"@,
{
    String::from_str("content")
}

/// The default `site_path` setting.
pub fn default_site_path() -> (r: String)
    ensures
        r@ == "site"@,
{
    String::from_str("site")
}

/// The default `templates_path` setting.
pub fn default_templates_path() -> (r: String)
    ensures
        r@ == "templates"@,
{
    String::from_str("templates")
}

/// The default `static_path` setting.
pub fn default_static_path() -> (r: String)
    ensures
        r@ == "static"@,
{
    String::from_str("static")
}

/// The default `media_path` setting.
pub fn default_media_path() -> (r: String)
    ensures
        r@ == "content/media"@,
{
    String::from_str("content/media")
}

/// The default `card_image` setting.
pub fn default_card_image() -> (r: String)
    ensures
        r@ == ""@,
{
    String::from_str("")
}

/// The default `logo_image` setting.
pub fn default_logo_image() -> (r: String)
    ensures
        r@ == ""@,
{
    String::from_str("")
}

/// The built-in menu: a single entry leading to the pages list.
pub open spec fn is_default_menu(m: Option<Vec<(String, String)>>) -> bool {
    m is Some && m->0@.len() == 1 && m->0@[0].0@ == "Pages"@ && m->0@[0].1@ == "/pages.html"@
}

pub fn default_menu() -> (r: Option<Vec<(String, String)>>)
    ensures
        is_default_menu(r),
{
    let mut v: Vec<(String, String)> = Vec::new();
    v.push((String::from_str("Pages"), String::from_str("/pages.html")));
    Some(v)
}

/// The default `data` setting.
pub fn default_data() -> (r: Option<HashMap<String, String>>)
    ensures
        r is None,
{
    None
}

/// The text setting `o`, or `d` when it is absent.
pub open spec fn or_default(o: Option<String>, d: Seq<char>) -> Seq<char> {
    match o {
        Some(s) => s@,
        None => d,
    }
}

/// `o`, or `d` when it is absent.
fn pick(o: Option<String>, d: String) -> (r: String)
    ensures
        r@ == or_default(o, d@),
{
    match o {
        Some(s) => s,
        None => d,
    }
}

impl Marmite {
    /// The settings that `input` gives, each absent one taking its default.
    pub fn from_input(input: MarmiteInput) -> (r: Marmite)
        ensures
            r.name@ == or_default(input.name, "Home"@),
            r.tagline@ == or_default(input.tagline, "Site generated from markdown content"@),
            r.url@ == or_default(input.url, "https://example.com"@),
            r.footer@ == or_default(input.footer, r#"<a href="https://creativecommons.org/licenses/by-nc-sa/4.0/">CC-BY_NC-SA</a> | Site generated with <a href="https://github.com/rochacbruno/marmite">Marmite</a>"#@),
            r.pagination == (match input.pagination { Some(p) => p, None => 10 }),
            r.list_title@ == or_default(input.list_title, "Posts"@),
            r.pages_title@ == or_default(input.pages_title, "Pages"@),
            r.tags_title@ == or_default(input.tags_title, "Tags"@),
            r.archives_title@ == or_default(input.archives_title, "Archive"@),
            r.content_path@ == or_default(input.content_path, "content"@),
            r.site_path@ == or_default(input.site_path, "site"@),
            r.templates_path@ == or_default(input.templates_path, "templates"@),
            r.static_path@ == or_default(input.static_path, "static"@),
            r.media_path@ == or_default(input.media_path, "content/media"@),
            r.card_image@ == or_default(input.card_image, ""@),
            r.logo_image@ == or_default(input.logo_image, ""@),
            input.menu is Some ==> r.menu == input.menu->0,
            input.menu is None ==> is_default_menu(r.menu),
            input.data is Some ==> r.data == input.data->0,
            input.data is None ==> r.data is None,
    {
        let name = pick(input.name, default_name());
        let tagline = pick(input.tagline, default_tagline());
        let url = pick(input.url, default_url());
        let footer = pick(input.footer, default_footer());
        let pagination = match input.pagination {
            Some(p) => p,
            None => default_pagination(),
        };
        let list_title = pick(input.list_title, default_list_title());
        let pages_title = pick(input.pages_title, default_pages_title());
        let tags_title = pick(input.tags_title, default_tags_title());
        let archives_title = pick(input.archives_title, default_archives_title());
        let content_path = pick(input.content_path, default_content_path());
        let site_path = pick(input.site_path, default_site_path());
        let templates_path = pick(input.templates_path, default_templates_path());
        let static_path = pick(input.static_path, default_static_path());
        let media_path = pick(input.media_path, default_media_path());
        let card_image = pick(input.card_image, default_card_image());
        let logo_image = pick(input.logo_image, default_logo_image());
        let menu = match input.menu {
            Some(m) => m,
            None => default_menu(),
        };
        let data = match input.data {
            Some(m) => m,
            None => default_data(),
        };
        Marmite {
            name,
            tagline,
            url,
            footer,
            pagination,
            list_title,
            pages_title,
            tags_title,
            archives_title,
            content_path,
            site_path,
            templates_path,
            static_path,
            media_path,
            card_image,
            logo_image,
            menu,
            data,
        }
    }

    /// The settings with every default.
    pub fn new() -> (r: Marmite)
        ensures
            r.name@ == "Home"@,
            r.tagline@ == "Site generated from markdown content"@,
            r.url@ == "https://example.com"@,
            r.footer@ == r#"<a href="https://creativecommons.org/licenses/by-nc-sa/4.0/">CC-BY_NC-SA</a> | Site generated with <a href="https://github.com/rochacbruno/marmite">Marmite</a>"#@,
            r.pagination == 10,
            r.list_title@ == "Posts"@,
            r.pages_title@ == "Pages"@,
            r.tags_title@ == "Tags"@,
            r.archives_title@ == "Archive"@,
            r.content_path@ == "content"@,
            r.site_path@ == "site"@,
            r.templates_path@ == "templates"@,
            r.static_path@ == "static"@,
            r.media_path@ == "content/media"@,
            r.card_image@ == ""@,
            r.logo_image@ == ""@,
            is_default_menu(r.menu),
            r.data is None,
    {
        Marmite {
            name: default_name(),
            tagline: default_tagline(),
            url: default_url(),
            footer: default_footer(),
            pagination: default_pagination(),
            list_title: default_list_title(),
            pages_title: default_pages_title(),
            tags_title: default_tags_title(),
            archives_title: default_archives_title(),
            content_path: default_content_path(),
            site_path: default_site_path(),
            templates_path: default_templates_path(),
            static_path: default_static_path(),
            media_path: default_media_path(),
            card_image: default_card_image(),
            logo_image: default_logo_image(),
            menu: default_menu(),
            data: default_data(),
        }
    }
}

} // verus!
