use crate::extract::{page_topics, parse_v2ex_page};
use crate::topic::{site_origin, topics_view, TopicView, V2exTopic};
use vstd::prelude::*;
use vstd::utf8::{decode_utf8, valid_utf8};

verus! {

/// Why a fetch cycle delivered nothing.
#[derive(Clone, Copy, Debug, PartialEq, Eq, Structural)]
pub enum FetchError {
    /// The request failed: connection, TLS or timeout.
    Transport,
    /// The response body is not valid UTF-8.
    Decode,
}

/// Relies on String::from_utf8: it succeeds exactly on valid UTF-8 and then
/// holds the decoded characters.
#[verifier::external_body]
fn string_from_utf8(bytes: Vec<u8>) -> (r: Option<String>)
    ensures
        r is Some <==> valid_utf8(bytes@),
        r matches Some(s) ==> s@ == decode_utf8(bytes@),
{
    String::from_utf8(bytes).ok()
}

/// Decodes a response body.
pub fn decode_page(bytes: Vec<u8>) -> (r: Result<String, FetchError>)
    ensures
        r is Ok <==> valid_utf8(bytes@),
        r matches Ok(s) ==> s@ == decode_utf8(bytes@),
        r matches Err(e) ==> e == FetchError::Decode,
{
    match string_from_utf8(bytes) {
        Some(s) => Ok(s),
        None => Err(FetchError::Decode),
    }
}

/// What a fetch cycle hands to the display: the page's topics, or nothing.
pub open spec fn delivered(fetched: Result<Seq<char>, FetchError>) -> Option<Seq<TopicView>> {
    match fetched {
        Ok(page) => Some(page_topics(page)),
        Err(_) => None,
    }
}

pub open spec fn fetched_view(fetched: Result<String, FetchError>) -> Result<Seq<char>, FetchError> {
    match fetched {
        Ok(p) => Ok(p@),
        Err(e) => Err(e),
    }
}

/// Finishes a fetch cycle: the topics of a fetched page, or nothing when the
/// fetch failed.
pub fn cycle_outcome(fetched: Result<String, FetchError>) -> (r: Option<Vec<V2exTopic>>)
    ensures
        match r {
            Some(v) => delivered(fetched_view(fetched)) == Some(topics_view(v@)),
            None => delivered(fetched_view(fetched)) is None,
        },
{
    match fetched {
        Ok(page) => Some(parse_v2ex_page(page)),
        Err(_) => None,
    }
}

/// The state that the display shows.
#[derive(Clone, Debug)]
pub struct AppState {
    pub current_page: usize,
    pub data: Option<Vec<V2exTopic>>,
    pub loading_state: usize,
}

pub struct AppStateView {
    pub current_page: nat,
    pub data: Option<Seq<TopicView>>,
    pub loading_state: nat,
}

impl View for AppState {
    type V = AppStateView;

    open spec fn view(&self) -> AppStateView {
        AppStateView {
            current_page: self.current_page as nat,
            data: match self.data {
                Some(v) => Some(topics_view(v@)),
                None => None,
            },
            loading_state: self.loading_state as nat,
        }
    }
}

/// The state once a cycle's delivery has been taken in: a delivered list
/// replaces the shown one whole; no delivery changes nothing.
pub open spec fn after_delivery(s: AppStateView, d: Option<Seq<TopicView>>) -> AppStateView {
    match d {
        Some(v) => AppStateView { data: Some(v), ..s },
        None => s,
    }
}

/// The number of dots after `Loading`, which runs 1 to 5 and round again.
pub open spec fn next_loading(n: nat) -> nat {
    n % 5 + 1
}

impl AppState {
    pub fn new() -> (r: AppState)
        ensures
            r@.current_page == 1,
            r@.data is None,
            r@.loading_state == 1,
    {
        AppState { current_page: 1, loading_state: 1, data: None }
    }

    /// Replaces the shown topics.
    pub fn set_data(&mut self, data: Vec<V2exTopic>)
        ensures
            final(self)@ == after_delivery(old(self)@, Some(topics_view(data@))),
    {
        self.data = Some(data);
    }

    /// Takes in what a cycle delivered, if anything.
    pub fn receive(&mut self, delivery: Option<Vec<V2exTopic>>)
        ensures
            final(self)@ == after_delivery(
                old(self)@,
                match delivery {
                    Some(v) => Some(topics_view(v@)),
                    None => None,
                },
            ),
    {
        match delivery {
            Some(v) => self.set_data(v),
            None => {},
        }
    }

    /// Moves the loading indicator one step.
    pub fn advance_loading(&mut self)
        ensures
            final(self)@ == (AppStateView { loading_state: next_loading(old(self)@.loading_state), ..old(self)@ }),
    {
        self.loading_state = self.loading_state % 5 + 1;
    }

    /// `Loading` followed by one dot per step of the indicator.
    pub fn loading_text(&self) -> (r: String)
        ensures
            r@ == "Loading"@ + Seq::new(self.loading_state as nat, |k: int| '.'),
    {
        proof {
            reveal_strlit(".");
        }
        let mut s = String::new();
        s.append("Loading");
        let ghost start = s@;
        let mut k: usize = 0;
        while k < self.loading_state
            invariant
                k <= self.loading_state,
                start == "Loading"@,
                s@ == start + Seq::new(k as nat, |j: int| '.'),
            decreases self.loading_state - k,
        {
            s.append(".");
            proof {
                reveal_strlit(".");
            }
            assert(s@ =~= start + Seq::new((k + 1) as nat, |j: int| '.'));
            k = k + 1;
        }
        s
    }

    /// The address to open for a digit key: the digit plus one indexes the
    /// shown topics; nothing for other keys, before any topics are shown, or
    /// past the end of the list.
    pub fn url_for_key(&self, key: char) -> (r: Option<String>)
        ensures
            r is Some <==> ('0' <= key <= '9' && self@.data is Some && key_index(key) < self@.data->0.len()),
            r matches Some(u) ==> u@ == site_origin() + self@.data->0[key_index(key)].short_url,
    {
        if !('0' <= key && key <= '9') {
            return None;
        }
        let index = (key as u32 - '0' as u32) as usize + 1;
        match &self.data {
            Some(v) => {
                if index < v.len() {
                    Some(v[index].get_topic_url())
                } else {
                    None
                }
            },
            None => None,
        }
    }
}

/// The list position that a digit key opens.
pub open spec fn key_index(key: char) -> int {
    (key as int - '0' as int) + 1
}

/// A failed fetch delivers nothing, and the shown state stays as it was.
pub proof fn lemma_failed_fetch_keeps_state(s: AppStateView, e: FetchError)
    ensures
        delivered(Err(e)) is None,
        after_delivery(s, delivered(Err(e))) == s,
{
}

} // verus!
