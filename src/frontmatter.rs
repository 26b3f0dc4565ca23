//! Front matter: the metadata block at the start of a content file.
use vstd::prelude::*;
use crate::text::{trim, trim_start};

verus! {

#[verifier::external_type_specification]
#[verifier::external_body]
pub struct ExFrontmatter(frontmatter_gen::Frontmatter);

/// A front matter value as the resolvers read it.
#[derive(Clone, Debug)]
pub enum FieldValue {
    /// A string value.
    Text(String),
    /// An array, each element in its textual representation.
    List(Vec<String>),
    /// Any other value, in its textual representation.
    Other(String),
}

/// What a parsed front matter holds: each key with its value.
pub uninterp spec fn frontmatter_fields(f: frontmatter_gen::Frontmatter) -> Map<
    Seq<char>,
    FieldValue,
>;

/// The value stored under `key`, if any.
pub open spec fn field_of(f: frontmatter_gen::Frontmatter, key: Seq<char>) -> Option<FieldValue> {
    if frontmatter_fields(f).contains_key(key) {
        Some(frontmatter_fields(f)[key])
    } else {
        None
    }
}

/// Relies on `Frontmatter::get`, which looks `key` up in the front matter's
/// map; an array's elements and values that are neither strings nor arrays
/// are handed out through `Value`'s `Display`.
#[verifier::external_body]
pub(crate) fn lookup(fm: &frontmatter_gen::Frontmatter, key: &str) -> (r: Option<FieldValue>)
    ensures
        r == field_of(*fm, key@),
{
    match fm.get(key) {
        Some(frontmatter_gen::Value::String(s)) => Some(FieldValue::Text(s.clone())),
        Some(frontmatter_gen::Value::Array(items)) => Some(
            FieldValue::List(items.iter().map(|v| v.to_string()).collect()),
        ),
        Some(v) => Some(FieldValue::Other(v.to_string_representation())),
        None => None,
    }
}

/// Relies on `Frontmatter::new`, which makes a front matter with no keys.
#[verifier::external_body]
pub(crate) fn empty_frontmatter() -> (r: frontmatter_gen::Frontmatter)
    ensures
        frontmatter_fields(r) =~= Map::empty(),
{
    frontmatter_gen::Frontmatter::new()
}

/// The first index at or after `i` where `pat` occurs in `s`, or -1.
pub open spec fn find_from(s: Seq<char>, pat: Seq<char>, i: int) -> int
    decreases s.len() - i,
{
    if i < 0 || i >= s.len() || i + pat.len() > s.len() {
        -1
    } else if s.subrange(i, i + pat.len()) == pat {
        i
    } else {
        find_from(s, pat, i + 1)
    }
}

/// The first index where `pat` occurs in `s`, or -1.
pub open spec fn find(s: Seq<char>, pat: Seq<char>) -> int {
    find_from(s, pat, 0)
}

/// The line that closes a metadata block.
pub open spec fn closing() -> Seq<char> {
    seq!['\n', '-', '-', '-']
}

/// The closing line with the line break after it.
pub open spec fn closing_line() -> Seq<char> {
    seq!['\n', '-', '-', '-', '\n']
}

/// The text opens with `---` and a line break, the block closes with a
/// `---` line past that opening, and a line break follows the closing `---`:
/// a YAML-delimited metadata block followed by a body.
pub open spec fn has_block(s: Seq<char>) -> bool {
    &&& s.len() >= 4
    &&& s[0] == '-' && s[1] == '-' && s[2] == '-' && s[3] == '\n'
    &&& find(s, closing()) >= 4
    &&& find(s, closing_line()) >= 0
}

/// The raw metadata of a text with a block: between the opening line and
/// the first closing `---`, trimmed.
pub open spec fn raw_block(s: Seq<char>) -> Seq<char> {
    trim(s.subrange(4, find(s, closing())))
}

/// The body of a text with a block: everything after its closing `---`
/// line.
pub open spec fn block_body(s: Seq<char>) -> Seq<char> {
    s.skip(find(s, closing_line()) + 5)
}

/// The formats a metadata block can be written in.
#[derive(Clone, Copy, Debug, PartialEq, Eq, Structural)]
pub enum BlockFormat {
    Yaml,
    Toml,
    Json,
}

/// The format of a raw metadata block, from its look: an opening `---`
/// means YAML, an opening `{` JSON, a `:` without any `{` YAML, and an `=`
/// TOML; anything else has no format.
pub open spec fn detected(block: Seq<char>) -> Option<BlockFormat> {
    let t = trim_start(block);
    if t.len() >= 3 && t[0] == '-' && t[1] == '-' && t[2] == '-' {
        Some(BlockFormat::Yaml)
    } else if t.len() > 0 && t[0] == '{' {
        Some(BlockFormat::Json)
    } else if t.contains(':') && !t.contains('{') {
        Some(BlockFormat::Yaml)
    } else if t.contains('=') {
        Some(BlockFormat::Toml)
    } else {
        None
    }
}

/// Whether frontmatter-gen's checks with its default settings accept a
/// text (no path traversal or null byte outside fenced code, within the
/// size limit).
pub uninterp spec fn input_valid(content: Seq<char>) -> bool;

/// What frontmatter-gen parses a raw block written in `format` into, each
/// key with its value as `lookup` hands it out, or `None` when it does not
/// parse.
pub uninterp spec fn parsed_block(block: Seq<char>, format: BlockFormat) -> Option<
    Map<Seq<char>, FieldValue>,
>;

/// Relies on `frontmatter_gen::validate_input` with `ParseOptions::default()`:
/// whether the text passes its checks.
#[verifier::external_body]
fn validate(content: &str) -> (r: Result<(), String>)
    ensures
        r is Ok <==> input_valid(content@),
{
    let options = frontmatter_gen::ParseOptions::default();
    frontmatter_gen::validate_input(content, &options).map_err(|e| e.to_string())
}

/// Relies on `frontmatter_gen::extract_raw_frontmatter`. For text that opens
/// with `---\n` and closes the block with a `\n---` past that line, it takes
/// the YAML branch and hands back the text between, trimmed. Every text it
/// hands back is a slice of the input's end.
#[verifier::external_body]
fn split_raw<'a>(content: &'a str) -> (r: Result<(&'a str, &'a str), String>)
    requires
        has_delimiter(content@),
    ensures
        r is Ok ==> is_suffix(r->Ok_0.1@, content@),
        has_block(content@) ==> r is Ok && r->Ok_0.0@ == raw_block(content@),
{
    frontmatter_gen::extract_raw_frontmatter(content).map_err(|e| e.to_string())
}

/// Relies on `frontmatter_gen::detect_format`, which classifies a block by
/// its look as `detected` states.
#[verifier::external_body]
fn detect(block: &str) -> (r: Result<BlockFormat, String>)
    ensures
        r is Ok <==> detected(block@) is Some,
        r is Ok ==> r->Ok_0 == detected(block@)->0,
{
    match frontmatter_gen::detect_format(block) {
        Ok(frontmatter_gen::Format::Yaml) => Ok(BlockFormat::Yaml),
        Ok(frontmatter_gen::Format::Toml) => Ok(BlockFormat::Toml),
        Ok(frontmatter_gen::Format::Json) => Ok(BlockFormat::Json),
        Ok(other) => Err(other.to_string()),
        Err(e) => Err(e.to_string()),
    }
}

/// Relies on `frontmatter_gen::parse`, which parses a raw block in the given
/// format with fixed settings.
#[verifier::external_body]
fn parse_block(block: &str, format: BlockFormat) -> (r: Result<frontmatter_gen::Frontmatter, String>)
    ensures
        r is Ok <==> parsed_block(block@, format) is Some,
        r is Ok ==> frontmatter_fields(r->Ok_0) == parsed_block(block@, format)->0,
{
    let f = match format {
        BlockFormat::Yaml => frontmatter_gen::Format::Yaml,
        BlockFormat::Toml => frontmatter_gen::Format::Toml,
        BlockFormat::Json => frontmatter_gen::Format::Json,
    };
    frontmatter_gen::parse(block, f).map_err(|e| e.to_string())
}

/// Whether the closing line `\n---\n` starts at index `i` of `s`.
fn closing_line_at(s: &str, i: usize) -> (r: bool)
    requires
        i + 5 <= s@.len() <= usize::MAX,
    ensures
        r == (s@.subrange(i as int, i + 5) == closing_line()),
{
    let r = s.get_char(i) == '\n' && s.get_char(i + 1) == '-' && s.get_char(i + 2) == '-'
        && s.get_char(i + 3) == '-' && s.get_char(i + 4) == '\n';
    proof {
        let w = s@.subrange(i as int, i + 5);
        if r {
            assert(w =~= closing_line());
        } else if w == closing_line() {
            assert(w[0] == '\n' && w[1] == '-' && w[2] == '-' && w[3] == '-' && w[4] == '\n');
        }
    }
    r
}

/// The index of the first closing line `\n---\n` in `s`, if any.
fn find_closing_line(s: &str) -> (r: Option<usize>)
    ensures
        r is Some <==> find(s@, closing_line()) >= 0,
        r is Some ==> r->0 == find(s@, closing_line()) && r->0 + 5 <= s@.len(),
{
    let n = s.unicode_len();
    let mut i: usize = 0;
    while i < n && n - i >= 5 && !closing_line_at(s, i)
        invariant
            i <= n,
            n == s@.len(),
            find_from(s@, closing_line(), i as int) == find(s@, closing_line()),
        decreases n - i,
    {
        i = i + 1;
    }
    if i < n && n - i >= 5 {
        Some(i)
    } else {
        None
    }
}

/// `b` is the end of `a`.
pub open spec fn is_suffix(b: Seq<char>, a: Seq<char>) -> bool {
    b.len() <= a.len() && b == a.subrange(a.len() - b.len(), a.len() as int)
}

/// The text opens with the three-hyphen delimiter.
pub open spec fn has_delimiter(s: Seq<char>) -> bool {
    s.len() >= 3 && s[0] == '-' && s[1] == '-' && s[2] == '-'
}

/// Splits a content file into its front matter and its markdown body.
///
/// Text that does not open with `---` has no front matter: the metadata is
/// empty and the body is the whole text. Otherwise the text is checked, the
/// raw block is taken out, its format detected and the block parsed; each
/// step that fails is an error. When the block is delimited by `---` lines,
/// the metadata is what the block parses into and the body is everything
/// after its closing line.
pub fn parse_front_matter<'a>(content: &'a str) -> (r: Result<
    (frontmatter_gen::Frontmatter, &'a str),
    String,
>)
    ensures
        !has_delimiter(content@) ==> r is Ok && frontmatter_fields(r->Ok_0.0) =~= Map::empty()
            && r->Ok_0.1@ == content@,
        has_delimiter(content@) && r is Ok ==> input_valid(content@),
        r is Ok ==> is_suffix(r->Ok_0.1@, content@),
        has_block(content@) ==> (r is Ok <==> (input_valid(content@) && detected(
            raw_block(content@),
        ) is Some && parsed_block(raw_block(content@), detected(raw_block(content@))->0) is Some)),
        r is Ok && has_block(content@) ==> frontmatter_fields(r->Ok_0.0) == parsed_block(
            raw_block(content@),
            detected(raw_block(content@))->0,
        )->0 && r->Ok_0.1@ == block_body(content@),
{
    let n = content.unicode_len();
    if !(n >= 3 && content.get_char(0) == '-' && content.get_char(1) == '-' && content.get_char(2)
        == '-') {
        assert(content@.subrange(0, content@.len() as int) =~= content@);
        return Ok((empty_frontmatter(), content));
    }
    validate(content)?;
    let (raw, rest) = split_raw(content)?;
    let format = detect(raw)?;
    let fm = parse_block(raw, format)?;
    let body = match find_closing_line(content) {
        Some(b) => {
            let body = content.substring_char(b + 5, n);
            assert(body@ =~= content@.skip(b + 5));
            body
        },
        None => rest,
    };
    Ok((fm, body))
}

} // verus!
