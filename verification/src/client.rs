use vstd::prelude::*;

use crate::model::SummaryModel;
use crate::parser::WorkoutSummary;

verus! {

/// The service answered a call with a refusal of its own, as opposed to a
/// connection-level failure: a rejected login, or a non-success response
/// status on any call.
#[derive(Debug, Clone, Copy, PartialEq, Eq, Structural)]
pub enum IfitError {
    InvalidUsernamePassword,
    UnexpectedStatus(u16),
}

/// Whether a response status reports success.
pub open spec fn is_success_status(status: u16) -> bool {
    200 <= status <= 299
}

impl IfitError {
    /// A short description of the error.
    pub fn message(&self) -> (m: &'static str)
        ensures
            self is InvalidUsernamePassword ==> m@ == "invalid username/password"@,
            self is UnexpectedStatus ==> m@ == "unexpected response status"@,
    {
        match self {
            IfitError::InvalidUsernamePassword => "invalid username/password",
            IfitError::UnexpectedStatus(_) => "unexpected response status",
        }
    }
}

/// The login decision on a response status: a success status leaves the
/// session the transport established in place; a 401 means the credentials
/// were refused; any other non-success status is a transport failure carrying
/// that status.
pub fn login_outcome(status: u16) -> (r: Result<(), IfitError>)
    ensures
        r is Ok <==> is_success_status(status),
        status == 401 ==> r == Err::<(), IfitError>(IfitError::InvalidUsernamePassword),
        !is_success_status(status) && status != 401 ==> r == Err::<(), IfitError>(
            IfitError::UnexpectedStatus(status),
        ),
{
    if status == 401 {
        Err(IfitError::InvalidUsernamePassword)
    } else if 200 <= status && status <= 299 {
        Ok(())
    } else {
        Err(IfitError::UnexpectedStatus(status))
    }
}

/// The fetch decision on a response status, for the listing and export calls:
/// any non-success status is a transport failure carrying that status.
pub fn fetch_outcome(status: u16) -> (r: Result<(), IfitError>)
    ensures
        r is Ok <==> is_success_status(status),
        !is_success_status(status) ==> r == Err::<(), IfitError>(
            IfitError::UnexpectedStatus(status),
        ),
{
    if 200 <= status && status <= 299 {
        Ok(())
    } else {
        Err(IfitError::UnexpectedStatus(status))
    }
}

/// The summaries a listing collects when the service serves the given pages in
/// order: the concatenation of the longest prefix of pages that holds no empty
/// page. The first empty page ends the listing and contributes nothing.
pub open spec fn listing_of(pages: Seq<Seq<SummaryModel>>) -> Seq<SummaryModel>
    decreases pages.len(),
{
    if pages.len() == 0 {
        Seq::<SummaryModel>::empty()
    } else if pages.first().len() == 0 {
        Seq::<SummaryModel>::empty()
    } else {
        pages.first() + listing_of(pages.drop_first())
    }
}

/// The rows of each fetched page, as mathematical values.
pub open spec fn pages_model(pages: Seq<Vec<WorkoutSummary>>) -> Seq<Seq<SummaryModel>> {
    pages.map_values(|p: Vec<WorkoutSummary>| p@.map_values(|w: WorkoutSummary| w@))
}

/// Listing a user's workouts twice, with the service serving the same pages
/// both times, collects the same summaries: the same ids, in the same order.
pub proof fn lemma_listing_idempotent(
    first_run: Seq<Seq<SummaryModel>>,
    second_run: Seq<Seq<SummaryModel>>,
)
    requires
        first_run == second_run,
    ensures
        listing_of(first_run) == listing_of(second_run),
{
}

/// The listing loop's state: the page to fetch next, the summaries collected
/// so far, and whether an empty page has ended the listing.
pub struct Pagination {
    pub next_page: u64,
    pub summaries: Vec<WorkoutSummary>,
    pub finished: bool,
}

impl Pagination {
    /// A listing that has fetched nothing: the first request is for page 1.
    pub fn new() -> (p: Pagination)
        ensures
            p.next_page == 1,
            p.summaries@ == Seq::<WorkoutSummary>::empty(),
            !p.finished,
    {
        Pagination { next_page: 1, summaries: Vec::new(), finished: false }
    }

    /// The page the loop must fetch next, or nothing once an empty page has
    /// ended the listing.
    pub fn page_to_fetch(&self) -> (r: Option<u64>)
        ensures
            r == (if self.finished {
                Option::<u64>::None
            } else {
                Some(self.next_page)
            }),
    {
        if self.finished {
            None
        } else {
            Some(self.next_page)
        }
    }

    /// Take in one fetched page's parsed rows. An empty page ends the listing
    /// at once and contributes nothing; a non-empty page is appended whole and
    /// moves the loop to the next page number.
    pub fn feed_page(&mut self, page: Vec<WorkoutSummary>)
        requires
            !old(self).finished,
            old(self).next_page < u64::MAX,
        ensures
            final(self).finished == (page@.len() == 0),
            final(self).summaries@ == old(self).summaries@ + page@,
            page@.len() == 0 ==> final(self).next_page == old(self).next_page,
            page@.len() > 0 ==> final(self).next_page == old(self).next_page + 1,
    {
        let mut page = page;
        if page.len() == 0 {
            self.finished = true;
            proof {
                assert(self.summaries@ + page@ =~= self.summaries@);
            }
        } else {
            self.summaries.append(&mut page);
            self.next_page = self.next_page + 1;
        }
    }
}

/// The listing a sequential fetch loop returns when the service serves the
/// given pages in order: it stops at the first empty page, or when the pages
/// run out, and returns the pages before it concatenated in fetch order.
pub fn list_from_pages(pages: Vec<Vec<WorkoutSummary>>) -> (r: Vec<WorkoutSummary>)
    requires
        pages@.len() < u64::MAX,
    ensures
        r@.map_values(|w: WorkoutSummary| w@) == listing_of(pages_model(pages@)),
{
    let ghost total: Seq<Seq<SummaryModel>> = pages_model(pages@);
    let mut rem = pages;
    let mut st = Pagination::new();
    proof {
        assert(pages_model(rem@) =~= total.skip(0));
        assert(st.summaries@.map_values(|w: WorkoutSummary| w@) =~= Seq::<SummaryModel>::empty());
        assert(Seq::<SummaryModel>::empty() + listing_of(total) =~= listing_of(total));
    }
    while !st.finished && rem.len() > 0
        invariant
            total.len() < u64::MAX,
            rem@.len() <= total.len(),
            pages_model(rem@) == total.skip(total.len() - rem@.len()),
            !st.finished ==> st.next_page == total.len() - rem@.len() + 1,
            !st.finished ==> listing_of(total) == st.summaries@.map_values(
                |w: WorkoutSummary| w@,
            ) + listing_of(total.skip(total.len() - rem@.len())),
            st.finished ==> st.summaries@.map_values(|w: WorkoutSummary| w@) == listing_of(total),
        decreases rem@.len(),
    {
        let ghost old_rem: Seq<Vec<WorkoutSummary>> = rem@;
        let ghost consumed: int = total.len() - rem@.len();
        let ghost remaining: Seq<Seq<SummaryModel>> = total.skip(consumed);
        let ghost before: Seq<SummaryModel> = st.summaries@.map_values(|w: WorkoutSummary| w@);
        let page = rem.remove(0);
        proof {
            assert(remaining == pages_model(old_rem));
            assert(remaining.first() == page@.map_values(|w: WorkoutSummary| w@));
            assert(rem@ =~= old_rem.drop_first());
            assert(pages_model(rem@) =~= remaining.drop_first());
            assert(remaining.drop_first() =~= total.skip(consumed + 1));
        }
        st.feed_page(page);
        proof {
            if page@.len() == 0 {
                assert(remaining.first().len() == 0);
                assert(listing_of(remaining) == Seq::<SummaryModel>::empty());
                assert(st.summaries@.map_values(|w: WorkoutSummary| w@) =~= before);
                assert(before + listing_of(remaining) =~= before);
            } else {
                assert(listing_of(remaining) == remaining.first() + listing_of(
                    total.skip(consumed + 1),
                ));
                assert(st.summaries@.map_values(|w: WorkoutSummary| w@) =~= before
                    + remaining.first());
                assert(before + (remaining.first() + listing_of(total.skip(consumed + 1))) =~= (
                before + remaining.first()) + listing_of(total.skip(consumed + 1)));
            }
        }
    }
    proof {
        if !st.finished {
            assert(rem@.len() == 0);
            assert(total.skip(total.len() - 0) =~= Seq::<Seq<SummaryModel>>::empty());
            assert(listing_of(Seq::<Seq<SummaryModel>>::empty()) == Seq::<SummaryModel>::empty());
            assert(st.summaries@.map_values(|w: WorkoutSummary| w@) + Seq::<SummaryModel>::empty()
                =~= st.summaries@.map_values(|w: WorkoutSummary| w@));
        }
    }
    st.summaries
}

/// The export of one workout is the response body itself, returned verbatim,
/// whatever it holds: the payload format is the service's contract, not this
/// library's.
pub fn export_payload(body: String) -> (r: String)
    ensures
        r@ == body@,
{
    body
}

} // verus!
