//! Resolution of a content item's title, slug and tags, each from its front
//! matter value when there is one and from a fallback otherwise.
use vstd::prelude::*;
use crate::frontmatter::{FieldValue, field_of, lookup};
use crate::text::{
    first_line, strip_hashes, trim, comma_list, unquote, views, line_one,
    strip_leading_hashes, trim_ws, split_trimmed, strip_quotes,
};

verus! {

/// The title taken from the first line of a markdown body: its leading `#`
/// run removed, then trimmed.
pub open spec fn heading_title(body: Seq<char>) -> Seq<char> {
    trim(strip_hashes(first_line(body)))
}

/// A string `title` field wins; otherwise the body's first line.
pub open spec fn title_of(field: Option<FieldValue>, body: Seq<char>) -> Seq<char> {
    match field {
        Some(FieldValue::Text(t)) => t@,
        _ => heading_title(body),
    }
}

/// The position of the last `.` in `s`, or -1.
pub open spec fn last_dot(s: Seq<char>) -> int
    decreases s.len(),
{
    if s.len() == 0 {
        -1
    } else if s.last() == '.' {
        s.len() - 1
    } else {
        last_dot(s.drop_last())
    }
}

/// A file name without its extension: everything before the last `.`,
/// unless that dot opens the name or the name is `..`.
pub open spec fn file_stem(name: Seq<char>) -> Seq<char> {
    if name == seq!['.', '.'] || last_dot(name) <= 0 {
        name
    } else {
        name.take(last_dot(name))
    }
}

/// A string `slug` field wins; otherwise the file name's stem.
pub open spec fn slug_of(field: Option<FieldValue>, file_name: Seq<char>) -> Seq<char> {
    match field {
        Some(FieldValue::Text(t)) => t@,
        _ => file_stem(file_name),
    }
}

/// An array gives its elements, each with one layer of quotes removed; a
/// string gives its comma-separated pieces, trimmed; anything else no tags.
pub open spec fn tags_of(field: Option<FieldValue>) -> Seq<Seq<char>> {
    match field {
        Some(FieldValue::List(items)) => views(items@).map_values(|t: Seq<char>| unquote(t)),
        Some(FieldValue::Text(t)) => comma_list(t@),
        _ => Seq::empty(),
    }
}

/// The title of a body from its front matter `title` value.
pub fn title_from(field: &Option<FieldValue>, body: &str) -> (r: String)
    ensures
        r@ == title_of(*field, body@),
{
    match field {
        Some(FieldValue::Text(t)) => t.clone(),
        _ => String::from_str(trim_ws(strip_leading_hashes(line_one(body)))),
    }
}

/// Resolves the title of a content item.
pub fn get_title(fm: &frontmatter_gen::Frontmatter, body: &str) -> (r: String)
    ensures
        r@ == title_of(field_of(*fm, "title"@), body@),
{
    title_from(&lookup(fm, "title"), body)
}

/// The stem of a file name.
pub fn stem(name: &str) -> (r: &str)
    ensures
        r@ == file_stem(name@),
{
    let n = name.unicode_len();
    if n == 2 && name.get_char(0) == '.' && name.get_char(1) == '.' {
        assert(name@ =~= seq!['.', '.']);
        return name;
    }
    let mut j: usize = n;
    assert(name@.subrange(0, n as int) =~= name@);
    while j > 0 && name.get_char(j - 1) != '.'
        invariant
            j <= n,
            n == name@.len(),
            last_dot(name@.subrange(0, j as int)) == last_dot(name@),
        decreases j,
    {
        assert(name@.subrange(0, j as int).drop_last() =~= name@.subrange(0, j - 1));
        j = j - 1;
    }
    assert(j > 0 ==> last_dot(name@.subrange(0, j as int)) == j - 1);
    assert(j == 0 ==> last_dot(name@.subrange(0, j as int)) == -1);
    assert(name@ != seq!['.', '.']) by {
        if name@ == seq!['.', '.'] {
            assert(name@[0] == '.' && name@[1] == '.');
        }
    }
    if j <= 1 {
        name
    } else {
        name.substring_char(0, j - 1)
    }
}

/// The slug of a content item from its front matter `slug` value.
pub fn slug_from(field: &Option<FieldValue>, file_name: &str) -> (r: String)
    ensures
        r@ == slug_of(*field, file_name@),
{
    match field {
        Some(FieldValue::Text(t)) => t.clone(),
        _ => String::from_str(stem(file_name)),
    }
}

/// Resolves the slug of a content item stored under `file_name`.
pub fn get_slug(fm: &frontmatter_gen::Frontmatter, file_name: &str) -> (r: String)
    ensures
        r@ == slug_of(field_of(*fm, "slug"@), file_name@),
{
    slug_from(&lookup(fm, "slug"), file_name)
}

/// The tags of a content item from its front matter `tags` value.
pub fn tags_from(field: &Option<FieldValue>) -> (r: Vec<String>)
    ensures
        views(r@) == tags_of(*field),
{
    match field {
        Some(FieldValue::List(items)) => {
            let mut out: Vec<String> = Vec::new();
            let mut i: usize = 0;
            while i < items.len()
                invariant
                    i <= items@.len(),
                    views(out@) =~= views(items@.take(i as int)).map_values(
                        |t: Seq<char>| unquote(t),
                    ),
                decreases items@.len() - i,
            {
                let t = String::from_str(strip_quotes(items[i].as_str()));
                let ghost before = out@;
                out.push(t);
                assert(views(out@) =~= views(before).push(t@));
                assert(items@.take(i + 1) =~= items@.take(i as int).push(items@[i as int]));
                assert(views(items@.take(i + 1)).map_values(|t: Seq<char>| unquote(t)) =~= views(
                    items@.take(i as int),
                ).map_values(|t: Seq<char>| unquote(t)).push(unquote(items@[i as int]@)));
                i = i + 1;
            }
            assert(items@.take(items@.len() as int) =~= items@);
            out
        },
        Some(FieldValue::Text(t)) => split_trimmed(t.as_str()),
        _ => Vec::new(),
    }
}

/// Resolves the tags of a content item.
pub fn get_tags(fm: &frontmatter_gen::Frontmatter) -> (r: Vec<String>)
    ensures
        views(r@) == tags_of(field_of(*fm, "tags"@)),
{
    tags_from(&lookup(fm, "tags"))
}

} // verus!
