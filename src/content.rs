//! A processed content item, built from a file's text.
use vstd::prelude::*;
use crate::date::{DateTime, InvalidDate, date_ok, get_date};
use crate::fields::{get_slug, get_tags, get_title, slug_of, tags_of, title_of};
use crate::frontmatter::{field_of, frontmatter_fields, FieldValue};
use crate::text::views;

verus! {

/// One processed markdown file.
pub struct Content {
    pub title: String,
    pub slug: String,
    pub html: String,
    pub tags: Vec<String>,
    pub date: Option<DateTime>,
}

/// `c` is the item that a file named `file_name` gives, whose front matter
/// holds `fields`, whose markdown body is `body` and renders to `html`, when
/// its date is `date`.
pub open spec fn built_from(
    c: Content,
    fields: Map<Seq<char>, FieldValue>,
    body: Seq<char>,
    file_name: Seq<char>,
    html: Seq<char>,
    date: Option<DateTime>,
) -> bool {
    let get = |k: Seq<char>|
        if fields.contains_key(k) {
            Some(fields[k])
        } else {
            None::<FieldValue>
        };
    &&& c.title@ == title_of(get("title"@), body)
    &&& c.slug@ == slug_of(get("slug"@), file_name)
    &&& views(c.tags@) == tags_of(get("tags"@))
    &&& c.html@ == html
    &&& c.date == date
}

/// The date of a built item, or the error of a failed build.
pub open spec fn date_part(r: Result<Content, InvalidDate>) -> Result<Option<DateTime>, InvalidDate> {
    match r {
        Ok(c) => Ok(c.date),
        Err(e) => Err(e),
    }
}

/// Builds the item of a file named `file_name` from its front matter, its
/// markdown body and that body's HTML rendering; fails when the front
/// matter's date does not resolve.
pub fn build_content(
    fm: &frontmatter_gen::Frontmatter,
    body: &str,
    file_name: &str,
    html: String,
) -> (r: Result<Content, InvalidDate>)
    ensures
        date_ok(field_of(*fm, "date"@), date_part(r)),
        r is Ok ==> built_from(
            r->Ok_0,
            frontmatter_fields(*fm),
            body@,
            file_name@,
            html@,
            r->Ok_0.date,
        ),
{
    let title = get_title(fm, body);
    let tags = get_tags(fm);
    let slug = get_slug(fm, file_name);
    match get_date(fm) {
        Ok(date) => Ok(Content { title, slug, html, tags, date }),
        Err(e) => Err(e),
    }
}

} // verus!
