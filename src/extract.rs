use crate::markup::{
    as_index, attr_of, element_matches, find_first_with_attr, first_with_attr, doc_view, find_first, find_last, first_match, last_match, parse_markup,
    scope_end, scope_end_of, ElementView, MarkupElement, markup_of,
};
use crate::timestamp::{attr_layout, parse_timestamp, parsed_timestamp, Timestamp};
use crate::topic::{all_digits, digits_value, id_segment, is_digit, topic_id, topic_id_from_path, topics_view, RefView, TopicView, V2exNode, V2exTopic, V2exUser};
use vstd::prelude::*;

verus! {

/// Why a topic entry of a page was left out.
#[derive(Clone, Copy, Debug, PartialEq, Eq, Structural)]
pub enum ExtractError {
    /// An element that the entry needs is missing.
    Structure,
    /// The timestamp attribute is missing or does not follow its layout.
    TimestampFormat,
}

/// What became of one topic entry of a page.
#[derive(Debug)]
pub enum Candidate {
    Accepted(V2exTopic),
    /// The entry has no topic link: it is not a topic.
    Skipped,
    Rejected(ExtractError),
}

pub enum CandidateView {
    Accepted(TopicView),
    Skipped,
    Rejected(ExtractError),
}

impl View for Candidate {
    type V = CandidateView;

    open spec fn view(&self) -> CandidateView {
        match self {
            Candidate::Accepted(t) => CandidateView::Accepted(t@),
            Candidate::Skipped => CandidateView::Skipped,
            Candidate::Rejected(e) => CandidateView::Rejected(*e),
        }
    }
}

/// The fields of a topic-info fragment, with its timestamp attribute unread.
#[derive(Debug)]
pub struct InfoParts {
    pub node: V2exNode,
    pub send_user: V2exUser,
    pub time_attr: String,
    pub last_reply_user: V2exUser,
}

pub struct InfoView {
    pub node: RefView,
    pub send_user: RefView,
    pub time_attr: Seq<char>,
    pub last_reply_user: RefView,
}

impl View for InfoParts {
    type V = InfoView;

    open spec fn view(&self) -> InfoView {
        InfoView {
            node: self.node@,
            send_user: self.send_user@,
            time_attr: self.time_attr@,
            last_reply_user: self.last_reply_user@,
        }
    }
}

/// The text and target of the link element `a`.
pub open spec fn link_ref(doc: Seq<ElementView>, a: int) -> Option<RefView> {
    match attr_of(doc[a], "href"@) {
        Some(h) => Some(RefView { name: doc[a].text, sub_url: h }),
        None => None,
    }
}

/// The member named by the first link inside element `s`.
pub open spec fn user_in(doc: Seq<ElementView>, s: int) -> Option<RefView> {
    match first_match(doc, s + 1, scope_end(doc, s), false, "a"@) {
        Some(a) => link_ref(doc, a),
        None => None,
    }
}

/// The fields of the topic-info fragment at `f`: the first link of class
/// `node` is the category, the first and last `strong` elements hold the
/// poster and the last replier, and the first element that carries a `title`
/// attribute holds the time of posting.
pub open spec fn info_parts(doc: Seq<ElementView>, f: int) -> Result<InfoView, ExtractError> {
    let lo = f + 1;
    let hi = scope_end(doc, f);
    let node_link = first_match(doc, lo, hi, true, "node"@);
    let first_strong = first_match(doc, lo, hi, false, "strong"@);
    let last_strong = last_match(doc, lo, hi, false, "strong"@);
    if node_link is None || first_strong is None || last_strong is None {
        Err(ExtractError::Structure)
    } else if link_ref(doc, node_link->0) is None || user_in(doc, first_strong->0) is None
        || user_in(doc, last_strong->0) is None {
        Err(ExtractError::Structure)
    } else {
        match first_with_attr(doc, lo, hi, "title"@) {
            None => Err(ExtractError::TimestampFormat),
            Some(k) => Ok(
                InfoView {
                    node: link_ref(doc, node_link->0)->0,
                    send_user: user_in(doc, first_strong->0)->0,
                    time_attr: attr_of(doc[k], "title"@)->0,
                    last_reply_user: user_in(doc, last_strong->0)->0,
                },
            ),
        }
    }
}

/// The topic link inside entry `i`, with its target.
pub open spec fn topic_link(doc: Seq<ElementView>, i: int) -> Option<(int, Seq<char>)> {
    match first_match(doc, i + 1, scope_end(doc, i), true, "topic-link"@) {
        None => None,
        Some(l) => match attr_of(doc[l], "href"@) {
            None => None,
            Some(h) => Some((l, h)),
        },
    }
}

/// The topic-info fragment inside entry `i`.
pub open spec fn topic_info(doc: Seq<ElementView>, i: int) -> Option<int> {
    first_match(doc, i + 1, scope_end(doc, i), true, "topic_info"@)
}

/// What becomes of entry `i` when its timestamp attribute reads as `posted`.
pub open spec fn candidate_with(doc: Seq<ElementView>, i: int, posted: Option<Timestamp>) -> CandidateView {
    match topic_link(doc, i) {
        None => CandidateView::Skipped,
        Some((l, h)) => match topic_info(doc, i) {
            None => CandidateView::Rejected(ExtractError::Structure),
            Some(f) => match info_parts(doc, f) {
                Err(e) => CandidateView::Rejected(e),
                Ok(p) => match posted {
                    None => CandidateView::Rejected(ExtractError::TimestampFormat),
                    Some(t) => CandidateView::Accepted(
                        TopicView {
                            id: topic_id(h),
                            title: doc[l].text,
                            short_url: h,
                            node: p.node,
                            send_user: p.send_user,
                            send_time: t,
                            last_reply_user: p.last_reply_user,
                        },
                    ),
                },
            },
        },
    }
}

/// The timestamp attribute that entry `i` hands to the timestamp parser, if any.
pub open spec fn time_attr_of(doc: Seq<ElementView>, i: int) -> Option<Seq<char>> {
    match topic_link(doc, i) {
        None => None,
        Some(_) => match topic_info(doc, i) {
            None => None,
            Some(f) => match info_parts(doc, f) {
                Err(_) => None,
                Ok(p) => Some(p.time_attr),
            },
        },
    }
}

/// What becomes of entry `i`.
pub open spec fn candidate(doc: Seq<ElementView>, i: int) -> CandidateView {
    candidate_with(
        doc,
        i,
        match time_attr_of(doc, i) {
            Some(a) => parsed_timestamp(a, attr_layout()),
            None => None,
        },
    )
}

/// Whether an element is a topic entry: it has the classes `cell` and `item`.
pub open spec fn is_entry(e: ElementView) -> bool {
    e.classes.contains("cell"@) && e.classes.contains("item"@)
}

/// The topics accepted among the entries at indices below `n`, in document order.
pub open spec fn topics_upto(doc: Seq<ElementView>, n: int) -> Seq<TopicView>
    decreases n,
{
    if n <= 0 {
        Seq::empty()
    } else {
        let rest = topics_upto(doc, n - 1);
        if is_entry(doc[n - 1]) {
            match candidate(doc, n - 1) {
                CandidateView::Accepted(t) => rest.push(t),
                _ => rest,
            }
        } else {
            rest
        }
    }
}

pub open spec fn doc_topics(doc: Seq<ElementView>) -> Seq<TopicView> {
    topics_upto(doc, doc.len() as int)
}

/// The topics listed on the page with markup `text`.
pub open spec fn page_topics(text: Seq<char>) -> Seq<TopicView> {
    doc_topics(markup_of(text))
}

/// The text and target of the link element `a`.
fn link_parts(doc: &Vec<MarkupElement>, a: usize) -> (r: Option<(String, String)>)
    requires
        a < doc@.len(),
    ensures
        match link_ref(doc_view(doc@), a as int) {
            Some(v) => r matches Some(p) && p.0@ == v.name && p.1@ == v.sub_url,
            None => r is None,
        },
{
    match doc[a].attr("href") {
        Some(h) => Some((doc[a].text.clone(), h.clone())),
        None => None,
    }
}

/// The member named by the first link inside element `s`.
fn user_in_element(doc: &Vec<MarkupElement>, s: usize) -> (r: Option<V2exUser>)
    requires
        s < doc@.len(),
    ensures
        match user_in(doc_view(doc@), s as int) {
            Some(v) => r matches Some(u) && u@ == v,
            None => r is None,
        },
{
    let _n = doc.len();
    let hi = scope_end_of(doc, s);
    match find_first(doc, s + 1, hi, false, "a") {
        Some(a) => match link_parts(doc, a) {
            Some((name, sub_url)) => Some(V2exUser { name, sub_url }),
            None => None,
        },
        None => None,
    }
}

/// Reads the node, the poster, the last replier and the timestamp attribute
/// of the topic-info fragment at `f`.
pub fn topic_info_parts(doc: &Vec<MarkupElement>, f: usize) -> (r: Result<InfoParts, ExtractError>)
    requires
        f < doc@.len(),
    ensures
        match info_parts(doc_view(doc@), f as int) {
            Ok(v) => r matches Ok(p) && p@ == v,
            Err(e) => r matches Err(e2) && e2 == e,
        },
{
    let _n = doc.len();
    let lo = f + 1;
    let hi = scope_end_of(doc, f);
    let node_link = find_first(doc, lo, hi, true, "node");
    let first_strong = find_first(doc, lo, hi, false, "strong");
    let last_strong = find_last(doc, lo, hi, false, "strong");
    let (node_link, first_strong, last_strong) = match (node_link, first_strong, last_strong) {
        (Some(a), Some(b), Some(c)) => (a, b, c),
        _ => return Err(ExtractError::Structure),
    };
    let node = match link_parts(doc, node_link) {
        Some((name, sub_url)) => V2exNode { name, sub_url },
        None => return Err(ExtractError::Structure),
    };
    let send_user = match user_in_element(doc, first_strong) {
        Some(u) => u,
        None => return Err(ExtractError::Structure),
    };
    let last_reply_user = match user_in_element(doc, last_strong) {
        Some(u) => u,
        None => return Err(ExtractError::Structure),
    };
    match find_first_with_attr(doc, lo, hi, "title") {
        None => Err(ExtractError::TimestampFormat),
        Some((_, t)) => Ok(InfoParts { node, send_user, time_attr: t.clone(), last_reply_user }),
    }
}

/// The topic link inside entry `i` and its target.
fn topic_link_at(doc: &Vec<MarkupElement>, i: usize) -> (r: Option<(usize, String)>)
    requires
        i < doc@.len(),
    ensures
        match topic_link(doc_view(doc@), i as int) {
            Some((l, h)) => r matches Some(p) && p.0 == l && p.1@ == h,
            None => r is None,
        },
        r matches Some(p) ==> p.0 < doc@.len(),
{
    let _n = doc.len();
    let hi = scope_end_of(doc, i);
    match find_first(doc, i + 1, hi, true, "topic-link") {
        None => None,
        Some(l) => match doc[l].attr("href") {
            None => None,
            Some(h) => Some((l, h.clone())),
        },
    }
}

/// The topic-info fragment inside entry `i`.
fn topic_info_at(doc: &Vec<MarkupElement>, i: usize) -> (r: Option<usize>)
    requires
        i < doc@.len(),
    ensures
        as_index(r) == topic_info(doc_view(doc@), i as int),
        r matches Some(f) ==> f < doc@.len(),
{
    let _n = doc.len();
    let hi = scope_end_of(doc, i);
    find_first(doc, i + 1, hi, true, "topic_info")
}

/// What becomes of entry `i` when its timestamp attribute reads as `posted`.
pub fn candidate_from(doc: &Vec<MarkupElement>, i: usize, posted: Option<Timestamp>) -> (r: Candidate)
    requires
        i < doc@.len(),
    ensures
        r@ == candidate_with(doc_view(doc@), i as int, posted),
{
    let (l, href) = match topic_link_at(doc, i) {
        None => return Candidate::Skipped,
        Some(p) => p,
    };
    let f = match topic_info_at(doc, i) {
        None => return Candidate::Rejected(ExtractError::Structure),
        Some(f) => f,
    };
    let parts = match topic_info_parts(doc, f) {
        Err(e) => return Candidate::Rejected(e),
        Ok(p) => p,
    };
    let send_time = match posted {
        None => return Candidate::Rejected(ExtractError::TimestampFormat),
        Some(t) => t,
    };
    let id = topic_id_from_path(href.as_str());
    Candidate::Accepted(
        V2exTopic {
            id,
            title: doc[l].text.clone(),
            short_url: href,
            node: parts.node,
            send_user: parts.send_user,
            send_time,
            last_reply_user: parts.last_reply_user,
        },
    )
}

/// The timestamp attribute of entry `i`, when the entry gets as far as reading it.
fn time_attr_at(doc: &Vec<MarkupElement>, i: usize) -> (r: Option<String>)
    requires
        i < doc@.len(),
    ensures
        match time_attr_of(doc_view(doc@), i as int) {
            Some(a) => r matches Some(s) && s@ == a,
            None => r is None,
        },
{
    if topic_link_at(doc, i).is_none() {
        return None;
    }
    let f = match topic_info_at(doc, i) {
        None => return None,
        Some(f) => f,
    };
    match topic_info_parts(doc, f) {
        Err(_) => None,
        Ok(p) => Some(p.time_attr),
    }
}

/// What becomes of entry `i`: accepted as a topic, skipped, or rejected.
pub fn extract_candidate(doc: &Vec<MarkupElement>, i: usize) -> (r: Candidate)
    requires
        i < doc@.len(),
    ensures
        r@ == candidate(doc_view(doc@), i as int),
{
    let posted = match time_attr_at(doc, i) {
        Some(a) => parse_timestamp(a.as_str()),
        None => None,
    };
    candidate_from(doc, i, posted)
}

/// The topics of a parsed page, in document order.
pub fn extract_topics(doc: &Vec<MarkupElement>) -> (r: Vec<V2exTopic>)
    ensures
        topics_view(r@) == doc_topics(doc_view(doc@)),
{
    let ghost dv = doc_view(doc@);
    let mut out: Vec<V2exTopic> = Vec::new();
    let mut k: usize = 0;
    while k < doc.len()
        invariant
            k <= doc@.len(),
            dv == doc_view(doc@),
            topics_view(out@) == topics_upto(dv, k as int),
        decreases doc.len() - k,
    {
        if doc[k].has_class("cell") && doc[k].has_class("item") {
            match extract_candidate(doc, k) {
                Candidate::Accepted(t) => {
                    let ghost before = out@;
                    out.push(t);
                    assert(topics_view(out@) =~= topics_view(before).push(t@));
                },
                _ => {},
            }
        }
        k = k + 1;
    }
    out
}

/// What becomes of each topic entry below index `n`, in document order.
pub open spec fn candidates_upto(doc: Seq<ElementView>, n: int) -> Seq<CandidateView>
    decreases n,
{
    if n <= 0 {
        Seq::empty()
    } else if is_entry(doc[n - 1]) {
        candidates_upto(doc, n - 1).push(candidate(doc, n - 1))
    } else {
        candidates_upto(doc, n - 1)
    }
}

pub open spec fn candidates_view(v: Seq<Candidate>) -> Seq<CandidateView> {
    v.map_values(|c: Candidate| c@)
}

/// What becomes of each topic entry of a parsed page, in document order.
pub fn extract_candidates(doc: &Vec<MarkupElement>) -> (r: Vec<Candidate>)
    ensures
        candidates_view(r@) == candidates_upto(doc_view(doc@), doc@.len() as int),
{
    let ghost dv = doc_view(doc@);
    let mut out: Vec<Candidate> = Vec::new();
    let mut k: usize = 0;
    while k < doc.len()
        invariant
            k <= doc@.len(),
            dv == doc_view(doc@),
            candidates_view(out@) == candidates_upto(dv, k as int),
        decreases doc.len() - k,
    {
        if doc[k].has_class("cell") && doc[k].has_class("item") {
            let c = extract_candidate(doc, k);
            let ghost before = out@;
            out.push(c);
            assert(candidates_view(out@) =~= candidates_view(before).push(c@));
        }
        k = k + 1;
    }
    out
}

/// Parses a listing page and tells, for each topic entry in document order,
/// whether it became a topic, was skipped, or was rejected and why.
pub fn parse_page_candidates(page: &str) -> (r: Vec<Candidate>)
    ensures
        candidates_view(r@) == candidates_upto(markup_of(page@), markup_of(page@).len() as int),
{
    let doc = parse_markup(page);
    extract_candidates(&doc)
}

/// The topics among entry outcomes, in order.
pub fn accepted_topics(candidates: Vec<Candidate>) -> (r: Vec<V2exTopic>)
    ensures
        topics_view(r@) == accepted(candidates_view(candidates@)),
{
    let ghost cv = candidates_view(candidates@);
    let ghost n = candidates@.len();
    let _len = candidates.len();
    let mut rest = candidates;
    let mut out: Vec<V2exTopic> = Vec::new();
    let mut k: usize = 0;
    while rest.len() > 0
        invariant
            cv.len() == n,
            n <= usize::MAX,
            k <= n,
            rest@.len() == n - k,
            forall|j: int| 0 <= j < rest@.len() ==> (#[trigger] rest@[j])@ == cv[k + j],
            topics_view(out@) == accepted(cv.subrange(0, k as int)),
        decreases rest@.len(),
    {
        let ghost before = rest@;
        let c = rest.remove(0);
        assert(c@ == cv[k as int]);
        assert forall|j: int| 0 <= j < rest@.len() implies (#[trigger] rest@[j])@ == cv[k + 1 + j] by {
            assert(rest@[j] == before[j + 1]);
        }
        assert(cv.subrange(0, k + 1).drop_last() =~= cv.subrange(0, k as int));
        match c {
            Candidate::Accepted(t) => {
                let ghost prev = out@;
                out.push(t);
                assert(topics_view(out@) =~= topics_view(prev).push(t@));
            },
            _ => {},
        }
        k = k + 1;
    }
    assert(cv.subrange(0, n as int) =~= cv);
    out
}

/// Parses a listing page and extracts its topics, in document order.
pub fn parse_v2ex_page(page: String) -> (r: Vec<V2exTopic>)
    ensures
        topics_view(r@) == page_topics(page@),
{
    let doc = parse_markup(page.as_str());
    extract_topics(&doc)
}

/// The title and target of each entry below index `n` that has a topic link,
/// in document order.
pub open spec fn linked_entries(doc: Seq<ElementView>, n: int) -> Seq<(Seq<char>, Seq<char>)>
    decreases n,
{
    if n <= 0 {
        Seq::empty()
    } else {
        let rest = linked_entries(doc, n - 1);
        if is_entry(doc[n - 1]) {
            match topic_link(doc, n - 1) {
                Some((l, h)) => rest.push((doc[l].text, h)),
                None => rest,
            }
        } else {
            rest
        }
    }
}

pub open spec fn titles_and_links(ts: Seq<TopicView>) -> Seq<(Seq<char>, Seq<char>)> {
    ts.map_values(|t: TopicView| (t.title, t.short_url))
}

/// Whether entry `i` has a topic-info fragment with a category link, a
/// `strong` element with a member link, and a `title` attribute that reads
/// as a timestamp.
pub open spec fn has_complete_info(doc: Seq<ElementView>, i: int) -> bool {
    match topic_info(doc, i) {
        None => false,
        Some(f) => match info_parts(doc, f) {
            Err(_) => false,
            Ok(p) => parsed_timestamp(p.time_attr, attr_layout()) is Some,
        },
    }
}

proof fn lemma_topics_upto_linked(doc: Seq<ElementView>, n: int)
    requires
        0 <= n <= doc.len(),
        forall|i: int|
            0 <= i < n && is_entry(doc[i]) && topic_link(doc, i) is Some ==> has_complete_info(doc, i),
    ensures
        titles_and_links(topics_upto(doc, n)) == linked_entries(doc, n),
    decreases n,
{
    if n > 0 {
        lemma_topics_upto_linked(doc, n - 1);
        let rest = topics_upto(doc, n - 1);
        if is_entry(doc[n - 1]) {
            match topic_link(doc, n - 1) {
                Some((l, h)) => {
                    assert(has_complete_info(doc, n - 1));
                    let f = topic_info(doc, n - 1)->0;
                    let p = info_parts(doc, f)->Ok_0;
                    assert(time_attr_of(doc, n - 1) == Some(p.time_attr));
                    let t = candidate(doc, n - 1)->Accepted_0;
                    assert(titles_and_links(rest.push(t)) =~= titles_and_links(rest).push(
                        (t.title, t.short_url),
                    ));
                },
                None => {},
            }
        }
    }
}

/// When every topic entry that carries a topic link also has a complete
/// topic-info fragment, extraction returns exactly the entries that carry a
/// topic link, in document order, each with that link's text as title and its
/// target as path.
pub proof fn lemma_topics_are_linked_entries(doc: Seq<ElementView>)
    requires
        forall|i: int|
            0 <= i < doc.len() && is_entry(doc[i]) && topic_link(doc, i) is Some
                ==> has_complete_info(doc, i),
    ensures
        titles_and_links(doc_topics(doc)) == linked_entries(doc, doc.len() as int),
{
    lemma_topics_upto_linked(doc, doc.len() as int);
}

proof fn lemma_first_match_unique(
    doc: Seq<ElementView>,
    lo: int,
    hi: int,
    by_class: bool,
    name: Seq<char>,
    s: int,
)
    requires
        lo <= s < hi,
        element_matches(doc[s], by_class, name),
        forall|j: int| lo <= j < hi && element_matches(#[trigger] doc[j], by_class, name) ==> j == s,
    ensures
        first_match(doc, lo, hi, by_class, name) == Some(s),
    decreases hi - lo,
{
    if lo != s {
        lemma_first_match_unique(doc, lo + 1, hi, by_class, name, s);
    }
}

proof fn lemma_last_match_unique(
    doc: Seq<ElementView>,
    lo: int,
    hi: int,
    by_class: bool,
    name: Seq<char>,
    s: int,
)
    requires
        lo <= s < hi,
        element_matches(doc[s], by_class, name),
        forall|j: int| lo <= j < hi && element_matches(#[trigger] doc[j], by_class, name) ==> j == s,
    ensures
        last_match(doc, lo, hi, by_class, name) == Some(s),
    decreases hi - lo,
{
    if hi - 1 != s {
        lemma_last_match_unique(doc, lo, hi - 1, by_class, name, s);
    }
}

/// A topic-info fragment with a category link, a timestamp attribute and
/// exactly one `strong` element, which holds a member link, is read
/// successfully and names that member as poster and as last replier.
pub proof fn lemma_single_strong_same_user(doc: Seq<ElementView>, f: int, s: int)
    requires
        0 <= f < doc.len(),
        f + 1 <= s < scope_end(doc, f),
        doc[s].tag == "strong"@,
        forall|j: int|
            f + 1 <= j < scope_end(doc, f) && (#[trigger] doc[j]).tag == "strong"@ ==> j == s,
        user_in(doc, s) is Some,
        first_match(doc, f + 1, scope_end(doc, f), true, "node"@) matches Some(a) && link_ref(doc, a) is Some,
        first_with_attr(doc, f + 1, scope_end(doc, f), "title"@) is Some,
    ensures
        info_parts(doc, f) matches Ok(p) && p.send_user == p.last_reply_user && user_in(doc, s)
            == Some(p.send_user),
{
    let lo = f + 1;
    let hi = scope_end(doc, f);
    lemma_first_match_unique(doc, lo, hi, false, "strong"@, s);
    lemma_last_match_unique(doc, lo, hi, false, "strong"@, s);
}

proof fn lemma_digits_value_nonneg(d: Seq<char>)
    requires
        forall|i: int| 0 <= i < d.len() ==> is_digit(#[trigger] d[i]),
    ensures
        digits_value(d) >= 0,
    decreases d.len(),
{
    if d.len() > 0 {
        let e = d.drop_last();
        assert forall|i: int| 0 <= i < e.len() implies is_digit(#[trigger] e[i]) by {
            assert(e[i] == d[i]);
        }
        lemma_digits_value_nonneg(e);
        assert(is_digit(d[d.len() - 1]));
    }
}

/// A topic number is never negative.
pub proof fn lemma_topic_id_nonneg(path: Seq<char>)
    ensures
        topic_id(path) >= 0,
{
    if let Some(d) = id_segment(path) {
        if all_digits(d) {
            lemma_digits_value_nonneg(d);
        }
    }
}

proof fn lemma_topics_upto_ids(doc: Seq<ElementView>, n: int)
    requires
        0 <= n <= doc.len(),
    ensures
        forall|k: int|
            0 <= k < topics_upto(doc, n).len() ==> (#[trigger] topics_upto(doc, n)[k]).id
                == topic_id(topics_upto(doc, n)[k].short_url) && topics_upto(doc, n)[k].id >= 0,
    decreases n,
{
    if n > 0 {
        lemma_topics_upto_ids(doc, n - 1);
        let rest = topics_upto(doc, n - 1);
        if is_entry(doc[n - 1]) {
            match candidate(doc, n - 1) {
                CandidateView::Accepted(t) => {
                    let (l, h) = topic_link(doc, n - 1)->0;
                    lemma_topic_id_nonneg(h);
                    assert(t.short_url == h && t.id == topic_id(h));
                    let all = topics_upto(doc, n);
                    assert(all == rest.push(t));
                    assert forall|k: int| 0 <= k < all.len() implies (#[trigger] all[k]).id == topic_id(
                        all[k].short_url,
                    ) && all[k].id >= 0 by {
                        if k < rest.len() {
                            assert(all[k] == rest[k]);
                        }
                    }
                },
                _ => {},
            }
        }
    }
}

/// Every topic extracted from a page carries the number of its thread path
/// (0 when the path has none), which is never negative.
pub proof fn lemma_topic_ids(doc: Seq<ElementView>)
    ensures
        forall|k: int|
            0 <= k < doc_topics(doc).len() ==> (#[trigger] doc_topics(doc)[k]).id == topic_id(
                doc_topics(doc)[k].short_url,
            ) && doc_topics(doc)[k].id >= 0,
{
    lemma_topics_upto_ids(doc, doc.len() as int);
}

/// Extraction keeps no state: the same page text always gives the same topics.
pub proof fn lemma_extraction_deterministic(a: Seq<char>, b: Seq<char>)
    requires
        a == b,
    ensures
        page_topics(a) == page_topics(b),
{
}

/// The topics among a sequence of entry outcomes, in order.
pub open spec fn accepted(cs: Seq<CandidateView>) -> Seq<TopicView>
    decreases cs.len(),
{
    if cs.len() == 0 {
        Seq::empty()
    } else {
        let rest = accepted(cs.drop_last());
        match cs.last() {
            CandidateView::Accepted(t) => rest.push(t),
            _ => rest,
        }
    }
}

proof fn lemma_topics_upto_accepted(doc: Seq<ElementView>, n: int)
    requires
        0 <= n <= doc.len(),
    ensures
        topics_upto(doc, n) == accepted(candidates_upto(doc, n)),
    decreases n,
{
    if n > 0 {
        lemma_topics_upto_accepted(doc, n - 1);
        if is_entry(doc[n - 1]) {
            let cs = candidates_upto(doc, n - 1);
            assert(cs.push(candidate(doc, n - 1)).drop_last() =~= cs);
        }
    }
}

/// The topics of a page are exactly the entries that were accepted, in the
/// same order; skipped and rejected entries leave nothing behind.
pub proof fn lemma_topics_are_accepted_entries(doc: Seq<ElementView>)
    ensures
        doc_topics(doc) == accepted(candidates_upto(doc, doc.len() as int)),
{
    lemma_topics_upto_accepted(doc, doc.len() as int);
}

} // verus!
