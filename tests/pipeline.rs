use frontmatter_gen::{Frontmatter, Value};
use marmite::config::{default_menu, default_name, default_pagination, Marmite, MarmiteInput};
use marmite::content::build_content;
use marmite::date::{parse_date, resolve_date, DateTime};
use marmite::fields::{get_slug, get_tags, get_title, stem, tags_from};
use marmite::frontmatter::{parse_front_matter, FieldValue};
use marmite::render::{render_plan, Target};
use marmite::site::{order_descending, SiteData, SortKey};
use marmite::text::{split_trimmed, strip_quotes, text_less, trim_ws};

fn fm_with(key: &str, value: Value) -> Frontmatter {
    let mut fm = Frontmatter::new();
    fm.insert(key.to_string(), value);
    fm
}

fn item(title: &str, slug: &str, date: Option<DateTime>) -> marmite::content::Content {
    marmite::content::Content {
        title: title.to_string(),
        slug: slug.to_string(),
        html: String::new(),
        tags: Vec::new(),
        date,
    }
}

fn day(year: i32, month: u32, day: u32) -> DateTime {
    DateTime { year, month, day, hour: 0, minute: 0, second: 0 }
}

#[test]
fn front_matter_block_is_split_from_body() {
    let text = "---\ntitle: Hello\nslug: greeting\n---\nBody text here";
    let (fm, body) = parse_front_matter(text).unwrap();
    assert_eq!(fm.get("title"), Some(&Value::String("Hello".to_string())));
    assert_eq!(fm.get("slug"), Some(&Value::String("greeting".to_string())));
    assert_eq!(fm.len(), 2);
    assert_eq!(body, "Body text here");
}

#[test]
fn text_without_delimiter_has_no_front_matter() {
    let text = "# Title\n\nJust markdown.";
    let (fm, body) = parse_front_matter(text).unwrap();
    assert!(fm.is_empty());
    assert_eq!(body, text);
    let (fm, body) = parse_front_matter("").unwrap();
    assert!(fm.is_empty());
    assert_eq!(body, "");
}

#[test]
fn title_from_front_matter_wins() {
    let fm = fm_with("title", Value::String("Hello".to_string()));
    assert_eq!(get_title(&fm, "# Something else\nbody"), "Hello");
}

#[test]
fn title_from_first_heading() {
    let fm = Frontmatter::new();
    assert_eq!(get_title(&fm, "# My Post\nbody text"), "My Post");
    assert_eq!(get_title(&fm, "###   Deep  \r\nrest"), "Deep");
    assert_eq!(get_title(&fm, ""), "");
    assert_eq!(get_title(&fm, "\nsecond line"), "");
    let fm = fm_with("title", Value::Number(3.0));
    assert_eq!(get_title(&fm, "## Fallback"), "Fallback");
}

#[test]
fn slug_from_file_stem() {
    let fm = Frontmatter::new();
    assert_eq!(get_slug(&fm, "foo-bar.md"), "foo-bar");
    let fm = fm_with("slug", Value::String("custom".to_string()));
    assert_eq!(get_slug(&fm, "foo-bar.md"), "custom");
}

#[test]
fn stem_rules() {
    assert_eq!(stem("archive.tar.md"), "archive.tar");
    assert_eq!(stem(".hidden"), ".hidden");
    assert_eq!(stem(".hidden.md"), ".hidden");
    assert_eq!(stem("noext"), "noext");
    assert_eq!(stem(".."), "..");
    assert_eq!(stem("a."), "a");
}

#[test]
fn date_formats_parse() {
    let full = parse_date("2024-01-15 10:30:00").unwrap();
    assert_eq!(full, DateTime { year: 2024, month: 1, day: 15, hour: 10, minute: 30, second: 0 });
    let minutes = parse_date("2024-01-15 10:30").unwrap();
    assert_eq!(minutes, DateTime { year: 2024, month: 1, day: 15, hour: 10, minute: 30, second: 0 });
    let bare = parse_date("2024-01-15").unwrap();
    assert_eq!(bare, day(2024, 1, 15));
    assert_eq!(parse_date("15/01/2024"), None);
}

#[test]
fn date_resolution_errors() {
    assert!(matches!(resolve_date(None), Ok(None)));
    let r = resolve_date(Some(FieldValue::Text("15/01/2024".to_string())));
    match r {
        Err(e) => assert!(matches!(e.value, FieldValue::Text(ref t) if t == "15/01/2024")),
        Ok(_) => panic!("an unparseable date must be rejected"),
    }
    assert!(resolve_date(Some(FieldValue::Other("2024".to_string()))).is_err());
    assert!(resolve_date(Some(FieldValue::List(vec!["2024-01-15".to_string()]))).is_err());
    assert!(matches!(
        resolve_date(Some(FieldValue::Other("2024-01-15 10:30".to_string()))),
        Ok(Some(d)) if d == DateTime { year: 2024, month: 1, day: 15, hour: 10, minute: 30, second: 0 }
    ));
    assert!(matches!(
        resolve_date(Some(FieldValue::Text("2024-02-03".to_string()))),
        Ok(Some(d)) if d == day(2024, 2, 3)
    ));
}

#[test]
fn tags_from_array_string_and_absent() {
    let fm = fm_with(
        "tags",
        Value::Array(vec![
            Value::String("a".to_string()),
            Value::String("b".to_string()),
            Value::String("c".to_string()),
        ]),
    );
    assert_eq!(get_tags(&fm), vec!["a", "b", "c"]);
    let fm = fm_with("tags", Value::String("a, b, c".to_string()));
    assert_eq!(get_tags(&fm), vec!["a", "b", "c"]);
    assert!(get_tags(&Frontmatter::new()).is_empty());
    assert_eq!(tags_from(&Some(FieldValue::Text(String::new()))), vec![""]);
    assert_eq!(
        tags_from(&Some(FieldValue::List(vec!["\"x\"".to_string(), "7".to_string()]))),
        vec!["x", "7"]
    );
}

#[test]
fn tags_parsed_from_yaml_front_matter() {
    let (fm, _) = parse_front_matter("---\ntags: [a, b, c]\n---\nbody").unwrap();
    assert_eq!(get_tags(&fm), vec!["a", "b", "c"]);
}

#[test]
fn text_helpers() {
    assert_eq!(trim_ws("  \t hi there \n"), "hi there");
    assert_eq!(trim_ws("   "), "");
    assert_eq!(split_trimmed(" a ,b,, c"), vec!["a", "b", "", "c"]);
    assert_eq!(strip_quotes("\"q\""), "q");
    assert_eq!(strip_quotes("\"\"\"q"), "\"\"q");
    assert!(text_less("abc", "abd"));
    assert!(text_less("ab", "abc"));
    assert!(!text_less("b", "abc"));
    assert!(!text_less("same", "same"));
}

#[test]
fn classification_by_date() {
    let site = Marmite::new();
    let mut data = SiteData::new(&site);
    data.add(item("Dated", "dated", Some(day(2024, 1, 1))));
    data.add(item("Undated", "undated", None));
    data.add(item("Also dated", "also", Some(day(2023, 5, 1))));
    assert_eq!(data.posts.len(), 2);
    assert_eq!(data.pages.len(), 1);
    assert!(data.posts.iter().all(|c| c.date.is_some()));
    assert!(data.pages.iter().all(|c| c.date.is_none()));
}

#[test]
fn posts_newest_first_pages_title_descending() {
    let posts = vec![
        item("old", "old", Some(day(2020, 1, 1))),
        item("new", "new", Some(day(2024, 6, 1))),
        item("mid", "mid", Some(DateTime { year: 2022, month: 3, day: 4, hour: 5, minute: 6, second: 7 })),
    ];
    let sorted = order_descending(posts, SortKey::Date);
    let slugs: Vec<&str> = sorted.iter().map(|c| c.slug.as_str()).collect();
    assert_eq!(slugs, vec!["new", "mid", "old"]);
    let pages = vec![item("About", "about", None), item("Contact", "contact", None), item("Blog", "blog", None)];
    let sorted = order_descending(pages, SortKey::Title);
    let titles: Vec<&str> = sorted.iter().map(|c| c.title.as_str()).collect();
    assert_eq!(titles, vec!["Contact", "Blog", "About"]);
}

#[test]
fn build_content_resolves_every_field() {
    let (fm, body) = parse_front_matter("---\ntitle: T\ndate: 2024-03-02 08:09\ntags: x, y\n---\n# Head\ntext").unwrap();
    let c = build_content(&fm, body, "post-one.md", "<p>x</p>".to_string()).unwrap();
    assert_eq!(c.title, "T");
    assert_eq!(c.slug, "post-one");
    assert_eq!(c.html, "<p>x</p>");
    assert_eq!(c.tags, vec!["x", "y"]);
    assert_eq!(c.date, Some(DateTime { year: 2024, month: 3, day: 2, hour: 8, minute: 9, second: 0 }));
    let (fm, body) = parse_front_matter("---\ndate: 15/01/2024\n---\nbody").unwrap();
    assert!(build_content(&fm, body, "bad.md", String::new()).is_err());
}

#[test]
fn end_to_end_two_files() {
    let site = Marmite::new();
    let mut data = SiteData::new(&site);
    let files = [("first.md", "---\ndate: 2024-01-01\n---\n# First\nhello"), ("about.md", "# About\nme")];
    for (name, text) in files.iter() {
        let (fm, body) = parse_front_matter(text).unwrap();
        data.add_file(&fm, body, name, format!("<p>{}</p>", body)).unwrap();
    }
    data.sort();
    assert_eq!(data.posts.len(), 1);
    assert_eq!(data.pages.len(), 1);
    assert_eq!(data.posts[0].slug, "first");
    assert_eq!(data.pages[0].title, "About");
    let plan = render_plan(&data);
    let outputs: Vec<&str> = plan.iter().map(|j| j.output.as_str()).collect();
    assert_eq!(outputs, vec!["index.html", "pages.html", "first.html", "about.html"]);
    assert_eq!(plan[0].template, "list.html");
    assert_eq!(plan[0].title, "Posts");
    assert_eq!(plan[1].title, "Pages");
    assert_eq!(plan[2].template, "content.html");
    assert_eq!(plan[2].title, "First");
    assert_eq!(plan[3].target, Target::Page(0));
}

#[test]
fn config_defaults_and_overrides() {
    let site = Marmite::new();
    assert_eq!(site.name, "Home");
    assert_eq!(site.content_path, "content");
    assert_eq!(site.site_path, "site");
    assert_eq!(site.media_path, "content/media");
    assert_eq!(site.card_image, "");
    assert_eq!(site.pagination, 10);
    assert!(site.data.is_none());
    assert_eq!(default_name(), "Home");
    assert_eq!(default_pagination(), 10);
    assert_eq!(default_menu(), Some(vec![("Pages".to_string(), "/pages.html".to_string())]));
    let input = MarmiteInput {
        name: Some("Blog".to_string()),
        tagline: None,
        url: None,
        footer: None,
        pagination: Some(3),
        list_title: None,
        pages_title: Some("All pages".to_string()),
        tags_title: None,
        archives_title: None,
        content_path: None,
        site_path: None,
        templates_path: None,
        static_path: None,
        media_path: None,
        card_image: None,
        logo_image: None,
        menu: Some(None),
        data: None,
    };
    let site = Marmite::from_input(input);
    assert_eq!(site.name, "Blog");
    assert_eq!(site.pagination, 3);
    assert_eq!(site.pages_title, "All pages");
    assert_eq!(site.list_title, "Posts");
    assert_eq!(site.tagline, "Site generated from markdown content");
    assert!(site.menu.is_none());
}

#[test]
fn equal_keys_keep_their_order() {
    let posts = vec![
        item("a", "first", Some(day(2024, 1, 1))),
        item("b", "newer", Some(day(2024, 2, 1))),
        item("c", "second", Some(day(2024, 1, 1))),
    ];
    let sorted = order_descending(posts, SortKey::Date);
    let slugs: Vec<&str> = sorted.iter().map(|c| c.slug.as_str()).collect();
    assert_eq!(slugs, vec!["newer", "first", "second"]);
    let pages = vec![item("Same", "one", None), item("Other", "two", None), item("Same", "three", None)];
    let sorted = order_descending(pages, SortKey::Title);
    let slugs: Vec<&str> = sorted.iter().map(|c| c.slug.as_str()).collect();
    assert_eq!(slugs, vec!["one", "three", "two"]);
}

#[test]
fn front_matter_body_keeps_leading_whitespace() {
    let text = "---\ntitle: Spaced\n---\n\n  \nBody after blank lines\n";
    let (fm, body) = parse_front_matter(text).unwrap();
    assert_eq!(fm.get("title"), Some(&Value::String("Spaced".to_string())));
    assert_eq!(body, "\n  \nBody after blank lines\n");
    let (fm, body) = parse_front_matter("---\nslug: s\n---\n\n# Late heading").unwrap();
    assert_eq!(body, "\n# Late heading");
    assert_eq!(get_title(&fm, body), "");
}

#[test]
fn front_matter_errors() {
    assert!(parse_front_matter("---\ntitle: x\n---\nsee ../secret").is_err());
    assert!(parse_front_matter("---\njust words\n---\nbody").is_err());
}

#[test]
fn filing_a_run_partitions_items() {
    let site = Marmite::new();
    let mut data = SiteData::new(&site);
    let texts = [
        ("a.md", "---\ndate: 2024-01-01\n---\nA"),
        ("b.md", "# B\nno front matter"),
        ("c.md", "---\ntitle: C\n---\nC"),
        ("d.md", "---\ndate: 2023-12-31 23:59:59\n---\nD"),
    ];
    for (name, text) in texts.iter() {
        let (fm, body) = parse_front_matter(text).unwrap();
        data.add_file(&fm, body, name, String::new()).unwrap();
    }
    assert_eq!(data.posts.len() + data.pages.len(), texts.len());
    assert_eq!(data.posts[0].slug, "a");
    assert_eq!(data.posts[0].date, Some(day(2024, 1, 1)));
    assert_eq!(data.pages[0].slug, "b");
    assert_eq!(data.pages[1].title, "C");
    assert_eq!(data.posts[1].date, Some(DateTime { year: 2023, month: 12, day: 31, hour: 23, minute: 59, second: 59 }));
}
