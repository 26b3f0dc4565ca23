//! The plan of output files: which template renders which file, with what
//! title and which items.
use vstd::prelude::*;
use crate::content::Content;
use crate::site::SiteData;

verus! {

/// What a rendered file shows.
#[derive(Clone, Copy, Debug, PartialEq, Eq, Structural)]
pub enum Target {
    /// The list of all posts.
    PostList,
    /// The list of all pages.
    PageList,
    /// The post at this index.
    Post(usize),
    /// The page at this index.
    Page(usize),
}

/// One output file to render.
pub struct RenderJob {
    /// The template's name.
    pub template: String,
    /// The output file's name, relative to the output directory.
    pub output: String,
    /// The title handed to the template.
    pub title: String,
    pub target: Target,
}

/// `job` renders the list `target` into `output` under `title`.
pub open spec fn is_list_job(job: RenderJob, output: Seq<char>, title: Seq<char>, target: Target) -> bool {
    &&& job.template@ == "list.html"@
    &&& job.output@ == output
    &&& job.title@ == title
    &&& job.target == target
}

/// `job` renders item `c` into the file named after its slug.
pub open spec fn is_item_job(job: RenderJob, c: Content, target: Target) -> bool {
    &&& job.template@ == "content.html"@
    &&& job.output@ == c.slug@ + ".html"@
    &&& job.title@ == c.title@
    &&& job.target == target
}

/// The job that renders item `c`.
fn item_job(c: &Content, target: Target) -> (r: RenderJob)
    ensures
        is_item_job(r, *c, target),
{
    let mut output = c.slug.clone();
    output.append(".html");
    RenderJob {
        template: String::from_str("content.html"),
        output,
        title: c.title.clone(),
        target,
    }
}

/// The files of a site: `index.html` lists the posts and `pages.html` the
/// pages, both from the list template under their configured titles; then
/// each post and each page, in order, from the content template into
/// `<slug>.html`.
pub fn render_plan(data: &SiteData) -> (r: Vec<RenderJob>)
    ensures
        r@.len() == 2 + data.posts@.len() + data.pages@.len(),
        is_list_job(r@[0], "index.html"@, data.site.list_title@, Target::PostList),
        is_list_job(r@[1], "pages.html"@, data.site.pages_title@, Target::PageList),
        forall|i: int|
            0 <= i < data.posts@.len() ==> is_item_job(
                #[trigger] r@[2 + i],
                data.posts@[i],
                Target::Post(i as usize),
            ),
        forall|i: int|
            0 <= i < data.pages@.len() ==> is_item_job(
                #[trigger] r@[2 + data.posts@.len() + i],
                data.pages@[i],
                Target::Page(i as usize),
            ),
{
    let mut jobs: Vec<RenderJob> = Vec::new();
    jobs.push(
        RenderJob {
            template: String::from_str("list.html"),
            output: String::from_str("index.html"),
            title: data.site.list_title.clone(),
            target: Target::PostList,
        },
    );
    jobs.push(
        RenderJob {
            template: String::from_str("list.html"),
            output: String::from_str("pages.html"),
            title: data.site.pages_title.clone(),
            target: Target::PageList,
        },
    );
    let np = data.posts.len();
    let mut i: usize = 0;
    while i < np
        invariant
            np == data.posts@.len(),
            i <= np,
            jobs@.len() == 2 + i,
            is_list_job(jobs@[0], "index.html"@, data.site.list_title@, Target::PostList),
            is_list_job(jobs@[1], "pages.html"@, data.site.pages_title@, Target::PageList),
            forall|k: int|
                0 <= k < i ==> is_item_job(
                    #[trigger] jobs@[2 + k],
                    data.posts@[k],
                    Target::Post(k as usize),
                ),
        decreases np - i,
    {
        jobs.push(item_job(&data.posts[i], Target::Post(i)));
        i = i + 1;
    }
    let ng = data.pages.len();
    let mut j: usize = 0;
    while j < ng
        invariant
            np == data.posts@.len(),
            ng == data.pages@.len(),
            j <= ng,
            jobs@.len() == 2 + np + j,
            is_list_job(jobs@[0], "index.html"@, data.site.list_title@, Target::PostList),
            is_list_job(jobs@[1], "pages.html"@, data.site.pages_title@, Target::PageList),
            forall|k: int|
                0 <= k < np ==> is_item_job(
                    #[trigger] jobs@[2 + k],
                    data.posts@[k],
                    Target::Post(k as usize),
                ),
            forall|k: int|
                0 <= k < j ==> is_item_job(
                    #[trigger] jobs@[2 + np + k],
                    data.pages@[k],
                    Target::Page(k as usize),
                ),
        decreases ng - j,
    {
        jobs.push(item_job(&data.pages[j], Target::Page(j)));
        j = j + 1;
    }
    jobs
}

} // verus!
