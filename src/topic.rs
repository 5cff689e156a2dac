use crate::markup::as_index;
use crate::timestamp::{minute_text, Timestamp};
use vstd::prelude::*;

verus! {

/// A forum category: its display name and its relative link.
#[derive(Clone, Debug, PartialEq, Eq)]
pub struct V2exNode {
    pub name: String,
    pub sub_url: String,
}

/// A forum member: display name and relative profile link.
#[derive(Clone, Debug, PartialEq, Eq)]
pub struct V2exUser {
    pub name: String,
    pub sub_url: String,
}

/// One discussion thread as listed on a page.
#[derive(Clone, Debug, PartialEq, Eq)]
pub struct V2exTopic {
    pub id: i32,
    pub title: String,
    pub short_url: String,
    pub node: V2exNode,
    pub send_user: V2exUser,
    pub send_time: Timestamp,
    pub last_reply_user: V2exUser,
}

/// A name with a relative link, as a node or a member reference holds it.
pub struct RefView {
    pub name: Seq<char>,
    pub sub_url: Seq<char>,
}

pub struct TopicView {
    pub id: int,
    pub title: Seq<char>,
    pub short_url: Seq<char>,
    pub node: RefView,
    pub send_user: RefView,
    pub send_time: Timestamp,
    pub last_reply_user: RefView,
}

impl View for V2exNode {
    type V = RefView;

    open spec fn view(&self) -> RefView {
        RefView { name: self.name@, sub_url: self.sub_url@ }
    }
}

impl View for V2exUser {
    type V = RefView;

    open spec fn view(&self) -> RefView {
        RefView { name: self.name@, sub_url: self.sub_url@ }
    }
}

impl View for V2exTopic {
    type V = TopicView;

    open spec fn view(&self) -> TopicView {
        TopicView {
            id: self.id as int,
            title: self.title@,
            short_url: self.short_url@,
            node: self.node@,
            send_user: self.send_user@,
            send_time: self.send_time,
            last_reply_user: self.last_reply_user@,
        }
    }
}

pub open spec fn topics_view(v: Seq<V2exTopic>) -> Seq<TopicView> {
    v.map_values(|t: V2exTopic| t@)
}

/// The origin that relative forum paths are resolved against.
pub open spec fn site_origin() -> Seq<char> {
    "https://www.v2ex.com"@
}

/// The one-line summary of a topic.
pub open spec fn display_line(t: TopicView) -> Seq<char> {
    "title: "@ + t.title + " time: "@ + minute_text(t.send_time)
}

impl V2exTopic {
    /// `title: <title> time: <YYYY/MM/DD HH:MM>`.
    pub fn list_item_format(&self) -> (r: String)
        ensures
            r@ == display_line(self@),
    {
        let mut s = String::new();
        s.append("title: ");
        s.append(self.title.as_str());
        s.append(" time: ");
        let t = self.send_time.minute_string();
        s.append(t.as_str());
        s
    }

    /// The absolute address of the topic.
    pub fn get_topic_url(&self) -> (r: String)
        ensures
            r@ == site_origin() + self.short_url@,
    {
        let mut s = String::new();
        s.append("https://www.v2ex.com");
        s.append(self.short_url.as_str());
        s
    }
}

/// The first index at or after `k` that holds `c`.
pub open spec fn find_from(s: Seq<char>, c: char, k: int) -> Option<int>
    decreases s.len() - k,
{
    if k < 0 || k >= s.len() {
        None
    } else if s[k] == c {
        Some(k)
    } else {
        find_from(s, c, k + 1)
    }
}

/// The first index at or after `k` that holds `/` or `#`, else the length.
pub open spec fn segment_end(s: Seq<char>, k: int) -> int
    decreases s.len() - k,
{
    if k < 0 || k >= s.len() {
        s.len() as int
    } else if s[k] == '/' || s[k] == '#' {
        k
    } else {
        segment_end(s, k + 1)
    }
}

/// The third `/`-separated segment of a path, cut at its first `#`.
pub open spec fn id_segment(s: Seq<char>) -> Option<Seq<char>> {
    match find_from(s, '/', 0) {
        None => None,
        Some(p1) => match find_from(s, '/', p1 + 1) {
            None => None,
            Some(p2) => Some(s.subrange(p2 + 1, segment_end(s, p2 + 1))),
        },
    }
}

pub open spec fn is_digit(c: char) -> bool {
    '0' <= c && c <= '9'
}

pub open spec fn all_digits(d: Seq<char>) -> bool {
    d.len() > 0 && forall|i: int| 0 <= i < d.len() ==> is_digit(#[trigger] d[i])
}

pub open spec fn digits_value(d: Seq<char>) -> int
    decreases d.len(),
{
    if d.len() == 0 {
        0
    } else {
        digits_value(d.drop_last()) * 10 + (d.last() as int - '0' as int)
    }
}

/// The topic number in a thread path such as `/t/958255#reply0`; 0 when the
/// segment is not a number that fits in `i32`.
pub open spec fn topic_id(path: Seq<char>) -> int {
    match id_segment(path) {
        Some(d) => if all_digits(d) && digits_value(d) <= i32::MAX {
            digits_value(d)
        } else {
            0
        },
        None => 0,
    }
}

fn find_char_from(s: &str, c: char, k: usize) -> (r: Option<usize>)
    requires
        k <= s@.len(),
    ensures
        as_index(r) == find_from(s@, c, k as int),
        r matches Some(p) ==> k <= p < s@.len(),
{
    let n = s.unicode_len();
    let mut i = k;
    while i < n
        invariant
            n == s@.len(),
            k <= i <= n,
            find_from(s@, c, k as int) == find_from(s@, c, i as int),
        decreases n - i,
    {
        if s.get_char(i) == c {
            return Some(i);
        }
        i = i + 1;
    }
    None
}

fn segment_end_from(s: &str, k: usize) -> (r: usize)
    requires
        k <= s@.len(),
    ensures
        r == segment_end(s@, k as int),
        k <= r <= s@.len(),
{
    let n = s.unicode_len();
    let mut i = k;
    while i < n
        invariant
            n == s@.len(),
            k <= i <= n,
            segment_end(s@, k as int) == segment_end(s@, i as int),
        decreases n - i,
    {
        let ch = s.get_char(i);
        if ch == '/' || ch == '#' {
            return i;
        }
        i = i + 1;
    }
    n
}

proof fn lemma_digits_step(s: Seq<char>, st: int, k: int)
    requires
        0 <= st <= k < s.len(),
    ensures
        digits_value(s.subrange(st, k + 1)) == digits_value(s.subrange(st, k)) * 10 + (s[k] as int
            - '0' as int),
{
    assert(s.subrange(st, k + 1).drop_last() =~= s.subrange(st, k));
}

/// The topic number in a thread path such as `/t/958255#reply0`; 0 when there
/// is none.
pub fn topic_id_from_path(path: &str) -> (r: i32)
    ensures
        r as int == topic_id(path@),
        r >= 0,
{
    let _n = path.unicode_len();
    let p1 = match find_char_from(path, '/', 0) {
        Some(p) => p,
        None => return 0,
    };
    let p2 = match find_char_from(path, '/', p1 + 1) {
        Some(p) => p,
        None => return 0,
    };
    let st = p2 + 1;
    let en = segment_end_from(path, st);
    let ghost d = path@.subrange(st as int, en as int);
    assert(id_segment(path@) == Some(d));
    if st == en {
        assert(!all_digits(d));
        return 0;
    }
    let mut k = st;
    let mut val: u64 = 0;
    let mut big = false;
    while k < en
        invariant
            st <= k <= en <= path@.len(),
            d == path@.subrange(st as int, en as int),
            id_segment(path@) == Some(d),
            forall|j: int| st <= j < k ==> is_digit(#[trigger] path@[j]),
            !big ==> val == digits_value(path@.subrange(st as int, k as int)) && val <= i32::MAX,
            big ==> digits_value(path@.subrange(st as int, k as int)) > i32::MAX,
        decreases en - k,
    {
        let ch = path.get_char(k);
        if !('0' <= ch && ch <= '9') {
            assert(d[k - st] == path@[k as int]);
            assert(!is_digit(d[k - st]));
            assert(!all_digits(d));
            return 0;
        }
        proof {
            lemma_digits_step(path@, st as int, k as int);
        }
        if !big {
            let nv = val * 10 + (ch as u64 - '0' as u64);
            if nv > 2147483647 {
                big = true;
            } else {
                val = nv;
            }
        }
        k = k + 1;
    }
    assert(path@.subrange(st as int, k as int) == d);
    assert(all_digits(d)) by {
        assert forall|i: int| 0 <= i < d.len() implies is_digit(#[trigger] d[i]) by {
            assert(d[i] == path@[st + i]);
        }
    }
    if big {
        0
    } else {
        val as i32
    }
}

} // verus!
