use vstd::prelude::*;

verus! {

/// What the fetcher reads of a pull request: its number and its title.
pub struct PullRequestSummary {
    pub number: u64,
    pub title: String,
}

/// The model of a `PullRequestSummary`.
pub struct PullRequestModel {
    pub number: u64,
    pub title: Seq<char>,
}

impl View for PullRequestSummary {
    type V = PullRequestModel;

    open spec fn view(&self) -> PullRequestModel {
        PullRequestModel { number: self.number, title: self.title@ }
    }
}

/// One file the review service reports as changed in a pull request; its
/// model is its path.
pub struct ChangedFile {
    pub path: String,
}

impl View for ChangedFile {
    type V = Seq<char>;

    open spec fn view(&self) -> Seq<char> {
        self.path@
    }
}

/// The changed-file list a run works on: the service's pages joined in
/// order, each page's entries kept in the order the page gave them.
pub open spec fn joined_pages(pages: Seq<Seq<Seq<char>>>) -> Seq<Seq<char>> {
    pages.flatten()
}

/// Join the pages of a paginated changed-file listing into one ordered
/// list: page after page, nothing dropped, nothing reordered.
pub fn concat_pages(pages: &Vec<Vec<ChangedFile>>) -> (all: Vec<ChangedFile>)
    ensures
        all@.map_values(|f: ChangedFile| f@) == joined_pages(
            pages@.map_values(|p: Vec<ChangedFile>| p@.map_values(|f: ChangedFile| f@)),
        ),
{
    let ghost pviews: Seq<Seq<Seq<char>>> = pages@.map_values(
        |p: Vec<ChangedFile>| p@.map_values(|f: ChangedFile| f@),
    );
    let mut all: Vec<ChangedFile> = Vec::new();
    for i in 0..pages.len()
        invariant
            pviews == pages@.map_values(
                |p: Vec<ChangedFile>| p@.map_values(|f: ChangedFile| f@),
            ),
            all@.map_values(|f: ChangedFile| f@) == pviews.take(i as int).flatten(),
    {
        let page: &Vec<ChangedFile> = &pages[i];
        for j in 0..page.len()
            invariant
                pviews == pages@.map_values(
                    |p: Vec<ChangedFile>| p@.map_values(|f: ChangedFile| f@),
                ),
                page == &pages@[i as int],
                i < pages@.len(),
                all@.map_values(|f: ChangedFile| f@) == pviews.take(i as int).flatten()
                    + pviews[i as int].take(j as int),
        {
            let ghost before: Seq<ChangedFile> = all@;
            all.push(ChangedFile { path: page[j].path.clone() });
            proof {
                assert(all@.map_values(|f: ChangedFile| f@) =~= before.map_values(
                    |f: ChangedFile| f@,
                ).push(pviews[i as int][j as int]));
                assert(pviews[i as int].take(j + 1) =~= pviews[i as int].take(j as int).push(
                    pviews[i as int][j as int],
                ));
            }
        }
        proof {
            broadcast use Seq::lemma_flatten_push;

            assert(pviews[i as int].take(pviews[i as int].len() as int) =~= pviews[i as int]);
            assert(pviews.take(i + 1) =~= pviews.take(i as int).push(pviews[i as int]));
        }
    }
    proof {
        assert(pviews.take(pviews.len() as int) =~= pviews);
    }
    all
}

/// A service that returns the whole changed-file list as one page yields,
/// after joining, exactly that list: pagination loses nothing and changes
/// no order against an unpaginated listing.
pub proof fn lemma_single_page_joins_to_itself(page: Seq<Seq<char>>)
    ensures
        joined_pages(seq![page]) == page,
{
    seq![page].lemma_flatten_one_element();
}

} // verus!
