//! The site's aggregate: every processed item, classified as a post or a
//! page, and ordered for rendering.
use vstd::prelude::*;
use crate::config::Marmite;
use crate::content::{Content, build_content, built_from, date_part};
use crate::date::{DateTime, InvalidDate, before, date_ok, is_before};
use crate::frontmatter::{field_of, frontmatter_fields};
use crate::text::{
    text_lt, text_less, lemma_text_lt_irreflexive, lemma_text_lt_total, lemma_text_lt_transitive,
};

verus! {

broadcast use vstd::seq_lib::group_to_multiset_ensures;

/// An item with a date is a post; one without is a page.
pub open spec fn is_post(c: Content) -> bool {
    c.date is Some
}

/// The order of optional dates: no date comes before any date.
pub open spec fn date_lt(a: Option<DateTime>, b: Option<DateTime>) -> bool {
    match (a, b) {
        (None, Some(_)) => true,
        (Some(x), Some(y)) => before(x, y),
        _ => false,
    }
}

/// The key by which a collection of items is ordered.
#[derive(Clone, Copy, Debug, PartialEq, Eq, Structural)]
pub enum SortKey {
    Date,
    Title,
}

/// `a` is strictly smaller than `b` by `key`.
pub open spec fn item_lt(key: SortKey, a: Content, b: Content) -> bool {
    match key {
        SortKey::Date => date_lt(a.date, b.date),
        SortKey::Title => text_lt(a.title@, b.title@),
    }
}

/// `s` is ordered from the largest to the smallest by `key`.
pub open spec fn descending(key: SortKey, s: Seq<Content>) -> bool {
    forall|i: int, j: int| 0 <= i < j < s.len() ==> !item_lt(key, #[trigger] s[i], #[trigger] s[j])
}

/// No item is smaller than itself.
pub proof fn lemma_item_lt_irreflexive(key: SortKey, a: Content)
    ensures
        !item_lt(key, a, a),
{
    lemma_text_lt_irreflexive(a.title@);
}

/// The order of items is transitive.
pub proof fn lemma_item_lt_transitive(key: SortKey, a: Content, b: Content, c: Content)
    requires
        item_lt(key, a, b),
        item_lt(key, b, c),
    ensures
        item_lt(key, a, c),
{
    if key == SortKey::Title {
        lemma_text_lt_transitive(a.title@, b.title@, c.title@);
    }
}

/// `a` and `b` are equal by `key`.
pub open spec fn same_key(key: SortKey, a: Content, b: Content) -> bool {
    match key {
        SortKey::Date => a.date == b.date,
        SortKey::Title => a.title@ == b.title@,
    }
}

/// The items of `s` that are equal to `x` by `key`, in their order.
pub open spec fn key_class(key: SortKey, s: Seq<Content>, x: Content) -> Seq<Content> {
    s.filter(|c: Content| same_key(key, c, x))
}

/// Of two items that differ by `key`, one is smaller than the other.
pub proof fn lemma_item_lt_total(key: SortKey, a: Content, b: Content)
    ensures
        item_lt(key, a, b) || item_lt(key, b, a) || same_key(key, a, b),
{
    lemma_text_lt_total(a.title@, b.title@);
}

proof fn lemma_filter_none(s: Seq<Content>, f: spec_fn(Content) -> bool)
    requires
        forall|i: int| 0 <= i < s.len() ==> !f(#[trigger] s[i]),
    ensures
        s.filter(f) == Seq::<Content>::empty(),
    decreases s.len(),
{
    reveal(Seq::filter);
    if s.len() > 0 {
        lemma_filter_none(s.drop_last(), f);
        assert(!f(s[s.len() - 1]));
    } else {
        assert(s.filter(f) =~= Seq::<Content>::empty());
    }
}

/// Inserting `x` ahead of items that are all smaller than it puts `x` last
/// among the items equal to it.
proof fn lemma_insert_class(key: SortKey, out: Seq<Content>, p: int, x: Content, y: Content)
    requires
        0 <= p <= out.len(),
        forall|k: int| p <= k < out.len() ==> item_lt(key, #[trigger] out[k], x),
    ensures
        key_class(key, out.insert(p, x), y) == if same_key(key, x, y) {
            key_class(key, out, y).push(x)
        } else {
            key_class(key, out, y)
        },
{
    broadcast use Seq::filter_distributes_over_add;

    let f = |c: Content| same_key(key, c, y);
    let a = out.take(p);
    let b = out.skip(p);
    assert(out =~= a + b);
    assert(out.insert(p, x) =~= a + seq![x] + b);
    reveal(Seq::filter);
    assert(seq![x].drop_last() =~= Seq::<Content>::empty());
    assert(Seq::<Content>::empty().filter(f) =~= Seq::<Content>::empty());
    if same_key(key, x, y) {
        assert forall|i: int| 0 <= i < b.len() implies !f(#[trigger] b[i]) by {
            assert(item_lt(key, out[p + i], x));
            lemma_item_lt_irreflexive(key, x);
        }
        lemma_filter_none(b, f);
        assert(seq![x].filter(f) =~= seq![x]);
        assert(key_class(key, out.insert(p, x), y) =~= key_class(key, out, y).push(x));
    } else {
        assert(seq![x].filter(f) =~= Seq::<Content>::empty());
        assert(key_class(key, out.insert(p, x), y) =~= key_class(key, out, y));
    }
}

/// Whether `a` is strictly smaller than `b` by `key`.
fn less(key: SortKey, a: &Content, b: &Content) -> (r: bool)
    ensures
        r == item_lt(key, *a, *b),
{
    match key {
        SortKey::Date => match (&a.date, &b.date) {
            (None, Some(_)) => true,
            (Some(x), Some(y)) => is_before(x, y),
            _ => false,
        },
        SortKey::Title => text_less(a.title.as_str(), b.title.as_str()),
    }
}

/// Orders `v` from the largest to the smallest by `key`; items that are
/// equal by `key` keep their order.
pub fn order_descending(v: Vec<Content>, key: SortKey) -> (r: Vec<Content>)
    ensures
        r@.to_multiset() == v@.to_multiset(),
        descending(key, r@),
        forall|x: Content| #[trigger] key_class(key, r@, x) == key_class(key, v@, x),
{
    let ghost all = v@;
    let mut rest = v;
    let mut out: Vec<Content> = Vec::new();
    assert forall|y: Content| #[trigger]
        key_class(key, out@, y) + key_class(key, rest@, y) == key_class(key, all, y) by {
        reveal(Seq::filter);
        assert(key_class(key, out@, y) + key_class(key, rest@, y) =~= key_class(key, all, y));
    }
    while rest.len() > 0
        invariant
            out@.to_multiset().add(rest@.to_multiset()) == all.to_multiset(),
            descending(key, out@),
            forall|y: Content| #[trigger]
                key_class(key, out@, y) + key_class(key, rest@, y) == key_class(key, all, y),
        decreases rest@.len(),
    {
        let ghost rest0 = rest@;
        let x = rest.remove(0);
        let mut p: usize = 0;
        while p < out.len() && !less(key, &out[p], &x)
            invariant
                p <= out@.len(),
                forall|k: int| 0 <= k < p ==> !item_lt(key, #[trigger] out@[k], x),
            decreases out@.len() - p,
        {
            p = p + 1;
        }
        let ghost out0 = out@;
        proof {
            assert forall|k: int| p <= k < out0.len() implies item_lt(key, #[trigger] out0[k], x) by {
                assert(item_lt(key, out0[p as int], x));
                if k > p {
                    assert(!item_lt(key, out0[p as int], out0[k]));
                    lemma_item_lt_total(key, out0[p as int], out0[k]);
                    if item_lt(key, out0[k], out0[p as int]) {
                        lemma_item_lt_transitive(key, out0[k], out0[p as int], x);
                    }
                }
            }
            assert forall|y: Content| #[trigger]
                key_class(key, out0.insert(p as int, x), y) + key_class(key, rest@, y) == key_class(
                    key,
                    all,
                    y,
                ) by {
                broadcast use Seq::filter_distributes_over_add;

                lemma_insert_class(key, out0, p as int, x, y);
                assert(rest0 =~= seq![x] + rest@);
                reveal(Seq::filter);
                assert(seq![x].drop_last() =~= Seq::<Content>::empty());
                assert(Seq::<Content>::empty().filter(|c: Content| same_key(key, c, y))
                    =~= Seq::<Content>::empty());
                if same_key(key, x, y) {
                    assert(key_class(key, seq![x], y) =~= seq![x]);
                } else {
                    assert(key_class(key, seq![x], y) =~= Seq::<Content>::empty());
                }
                assert(key_class(key, rest0, y) == key_class(key, seq![x], y) + key_class(
                    key,
                    rest@,
                    y,
                ));
                assert(key_class(key, out0.insert(p as int, x), y) + key_class(key, rest@, y)
                    =~= key_class(key, out0, y) + key_class(key, rest0, y));
            }
        }
        out.insert(p, x);
        proof {
            assert(rest0.to_multiset() == rest@.to_multiset().insert(x)) by {
                assert(rest0.remove(0) == rest@);
            }
            assert(out@.to_multiset() == out0.to_multiset().insert(x));
            assert(out@.to_multiset().add(rest@.to_multiset()) =~= all.to_multiset());
            assert forall|i: int, j: int| 0 <= i < j < out@.len() implies !item_lt(
                key,
                #[trigger] out@[i],
                #[trigger] out@[j],
            ) by {
                if i < p && j == p {
                } else if i == p && j > p {
                    lemma_item_lt_irreflexive(key, out0[p as int]);
                    if item_lt(key, x, out0[j - 1]) {
                        lemma_item_lt_transitive(key, out0[p as int], x, out0[j - 1]);
                        if j - 1 == p {
                            lemma_item_lt_irreflexive(key, out0[p as int]);
                        }
                    }
                } else if j < p {
                    assert(out@[i] == out0[i] && out@[j] == out0[j]);
                } else if i < p {
                    assert(out@[i] == out0[i] && out@[j] == out0[j - 1]);
                } else {
                    assert(out@[i] == out0[i - 1] && out@[j] == out0[j - 1]);
                }
            }
        }
    }
    assert forall|x: Content| #[trigger] key_class(key, out@, x) == key_class(key, all, x) by {
        reveal(Seq::filter);
        assert(key_class(key, out@, x) + key_class(key, rest@, x) == key_class(key, all, x));
        assert(key_class(key, out@, x) + key_class(key, rest@, x) =~= key_class(key, out@, x));
    }
    out
}

/// The posts among `items`, in their order.
pub open spec fn posts_of(items: Seq<Content>) -> Seq<Content> {
    items.filter(|c: Content| is_post(c))
}

/// The pages among `items`, in their order.
pub open spec fn pages_of(items: Seq<Content>) -> Seq<Content> {
    items.filter(|c: Content| !is_post(c))
}

/// `posts` and `pages` together hold exactly `items`, every post has a date
/// and no page has one.
pub open spec fn partitions(posts: Seq<Content>, pages: Seq<Content>, items: Seq<Content>) -> bool {
    &&& posts.to_multiset().add(pages.to_multiset()) == items.to_multiset()
    &&& forall|i: int| 0 <= i < posts.len() ==> is_post(#[trigger] posts[i])
    &&& forall|i: int| 0 <= i < pages.len() ==> !is_post(#[trigger] pages[i])
}

/// Classification: the items with a date are the posts and the others the
/// pages; the two together are all the items, none in both. Filing one more
/// item extends the posts or the pages by it, as `SiteData::add` does.
pub proof fn lemma_classification(items: Seq<Content>, c: Content)
    ensures
        partitions(posts_of(items), pages_of(items), items),
        is_post(c) ==> posts_of(items.push(c)) == posts_of(items).push(c) && pages_of(
            items.push(c),
        ) == pages_of(items),
        !is_post(c) ==> pages_of(items.push(c)) == pages_of(items).push(c) && posts_of(
            items.push(c),
        ) == posts_of(items),
    decreases items.len(),
{
    reveal(Seq::filter);
    assert(items.push(c).drop_last() == items);
    if items.len() > 0 {
        let last = items.last();
        let init = items.drop_last();
        lemma_classification(init, last);
        assert(init.push(last) == items);
        assert(posts_of(items).to_multiset().add(pages_of(items).to_multiset()) =~= items.to_multiset());
        broadcast use vstd::seq_lib::group_filter_ensures;
    } else {
        assert(posts_of(items) =~= Seq::<Content>::empty());
        assert(pages_of(items) =~= Seq::<Content>::empty());
        assert(posts_of(items).to_multiset().add(pages_of(items).to_multiset()) =~= items.to_multiset());
    }
}

/// Classification over a run: when `posts` and `pages` partition the items
/// filed so far, filing one more item by its date keeps them a partition of
/// all the items filed.
pub proof fn lemma_filing_keeps_partition(
    posts: Seq<Content>,
    pages: Seq<Content>,
    items: Seq<Content>,
    c: Content,
)
    requires
        partitions(posts, pages, items),
    ensures
        is_post(c) ==> partitions(posts.push(c), pages, items.push(c)),
        !is_post(c) ==> partitions(posts, pages.push(c), items.push(c)),
{
    if is_post(c) {
        assert(posts.push(c).to_multiset().add(pages.to_multiset()) =~= items.push(c).to_multiset());
    } else {
        assert(posts.to_multiset().add(pages.push(c).to_multiset()) =~= items.push(c).to_multiset());
    }
}

/// Posts are newest first: of two posts, the one with the later date comes
/// first.
pub proof fn lemma_newer_post_first(posts: Seq<Content>, i: int, j: int)
    requires
        descending(SortKey::Date, posts),
        0 <= i < posts.len(),
        0 <= j < posts.len(),
        posts[i].date is Some,
        posts[j].date is Some,
        before(posts[j].date->0, posts[i].date->0),
    ensures
        i < j,
{
    if j < i {
        assert(!item_lt(SortKey::Date, posts[j], posts[i]));
    }
    if i == j {
        lemma_item_lt_irreflexive(SortKey::Date, posts[i]);
    }
}

/// Pages go by title from last to first: of two pages, the one with the
/// greater title comes first.
pub proof fn lemma_greater_title_first(pages: Seq<Content>, i: int, j: int)
    requires
        descending(SortKey::Title, pages),
        0 <= i < pages.len(),
        0 <= j < pages.len(),
        text_lt(pages[j].title@, pages[i].title@),
    ensures
        i < j,
{
    if j < i {
        assert(!item_lt(SortKey::Title, pages[j], pages[i]));
    }
    if i == j {
        lemma_item_lt_irreflexive(SortKey::Title, pages[i]);
    }
}

/// Every item of a run, classified and ordered.
pub struct SiteData<'a> {
    pub site: &'a Marmite,
    /// The items with a date, newest first once ordered.
    pub posts: Vec<Content>,
    /// The items without a date, by title from last to first once ordered.
    pub pages: Vec<Content>,
}

impl<'a> SiteData<'a> {
    /// An aggregate with no items.
    pub fn new(site: &'a Marmite) -> (r: SiteData<'a>)
        ensures
            r.site == site,
            r.posts@.len() == 0,
            r.pages@.len() == 0,
            partitions(r.posts@, r.pages@, Seq::empty()),
            r.posts@ == posts_of(Seq::empty()) && r.pages@ == pages_of(Seq::empty()),
    {
        proof {
            reveal(Seq::filter);
            assert(posts_of(Seq::<Content>::empty()) =~= Seq::<Content>::empty());
            assert(pages_of(Seq::<Content>::empty()) =~= Seq::<Content>::empty());
            assert(Seq::<Content>::empty().to_multiset().add(Seq::<Content>::empty().to_multiset())
                =~= Seq::<Content>::empty().to_multiset());
        }
        SiteData { site, posts: Vec::new(), pages: Vec::new() }
    }

    /// Files `c` under posts when it has a date and under pages otherwise.
    pub fn add(&mut self, c: Content)
        ensures
            final(self).site == old(self).site,
            is_post(c) ==> final(self).posts@ == old(self).posts@.push(c) && final(self).pages@
                == old(self).pages@,
            !is_post(c) ==> final(self).pages@ == old(self).pages@.push(c) && final(self).posts@
                == old(self).posts@,
            forall|items: Seq<Content>| #[trigger]
                partitions(old(self).posts@, old(self).pages@, items) ==> partitions(
                    final(self).posts@,
                    final(self).pages@,
                    items.push(c),
                ),
            forall|items: Seq<Content>|
                old(self).posts@ == posts_of(items) && old(self).pages@ == pages_of(items)
                    ==> final(self).posts@ == #[trigger] posts_of(items.push(c))
                    && final(self).pages@ == pages_of(items.push(c)),
    {
        proof {
            assert forall|items: Seq<Content>|
                self.posts@ == posts_of(items) && self.pages@ == pages_of(items) implies (if is_post(
                    c,
                ) {
                    self.posts@.push(c)
                } else {
                    self.posts@
                }) == #[trigger] posts_of(items.push(c)) && (if is_post(c) {
                    self.pages@
                } else {
                    self.pages@.push(c)
                }) == pages_of(items.push(c)) by {
                lemma_classification(items, c);
            }
            assert forall|items: Seq<Content>| #[trigger]
                partitions(self.posts@, self.pages@, items) implies partitions(
                    if is_post(c) { self.posts@.push(c) } else { self.posts@ },
                    if is_post(c) { self.pages@ } else { self.pages@.push(c) },
                    items.push(c),
                ) by {
                lemma_filing_keeps_partition(self.posts@, self.pages@, items, c);
            }
        }
        if c.date.is_some() {
            self.posts.push(c);
        } else {
            self.pages.push(c);
        }
    }

    /// Builds the item of a file named `file_name` from its front matter,
    /// its markdown body and that body's HTML, and files it; when the date
    /// does not resolve, nothing is filed and the error is returned.
    pub fn add_file(
        &mut self,
        fm: &frontmatter_gen::Frontmatter,
        body: &str,
        file_name: &str,
        html: String,
    ) -> (r: Result<(), InvalidDate>)
        ensures
            final(self).site == old(self).site,
            match r {
                Ok(_) => exists|c: Content|
                    {
                        &&& built_from(c, frontmatter_fields(*fm), body@, file_name@, html@, c.date)
                        &&& date_ok(field_of(*fm, "date"@), Ok(c.date))
                        &&& (is_post(c) ==> final(self).posts@ == old(self).posts@.push(c)
                            && final(self).pages@ == old(self).pages@)
                        &&& (!is_post(c) ==> final(self).pages@ == old(self).pages@.push(c)
                            && final(self).posts@ == old(self).posts@)
                        &&& forall|items: Seq<Content>| #[trigger]
                            partitions(old(self).posts@, old(self).pages@, items) ==> partitions(
                                final(self).posts@,
                                final(self).pages@,
                                items.push(c),
                            )
                    },
                Err(e) => date_ok(field_of(*fm, "date"@), Err(e)) && final(self).posts@ == old(
                    self,
                ).posts@ && final(self).pages@ == old(self).pages@,
            },
    {
        let built = build_content(fm, body, file_name, html);
        match built {
            Ok(c) => {
                let ghost g = c;
                self.add(c);
                assert(built_from(g, frontmatter_fields(*fm), body@, file_name@, html@, g.date));
                Ok(())
            },
            Err(e) => Err(e),
        }
    }

    /// Orders the posts by date, newest first, and the pages by title, from
    /// last to first; each collection keeps its items.
    pub fn sort(&mut self)
        ensures
            final(self).site == old(self).site,
            final(self).posts@.to_multiset() == old(self).posts@.to_multiset(),
            final(self).pages@.to_multiset() == old(self).pages@.to_multiset(),
            descending(SortKey::Date, final(self).posts@),
            descending(SortKey::Title, final(self).pages@),
            forall|x: Content| #[trigger]
                key_class(SortKey::Date, final(self).posts@, x) == key_class(
                    SortKey::Date,
                    old(self).posts@,
                    x,
                ),
            forall|x: Content| #[trigger]
                key_class(SortKey::Title, final(self).pages@, x) == key_class(
                    SortKey::Title,
                    old(self).pages@,
                    x,
                ),
    {
        let mut posts: Vec<Content> = Vec::new();
        std::mem::swap(&mut posts, &mut self.posts);
        self.posts = order_descending(posts, SortKey::Date);
        let mut pages: Vec<Content> = Vec::new();
        std::mem::swap(&mut pages, &mut self.pages);
        self.pages = order_descending(pages, SortKey::Title);
    }
}

} // verus!
