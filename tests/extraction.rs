use v2ex_topics::extract::{
    accepted_topics, extract_candidate, extract_candidates, extract_topics, parse_page_candidates, parse_v2ex_page,
    topic_info_parts, Candidate, ExtractError,
};
use v2ex_topics::markup::MarkupElement;
use v2ex_topics::timestamp::{parse_timestamp, Timestamp};
use v2ex_topics::topic::{topic_id_from_path, V2exNode, V2exTopic, V2exUser};

fn entry(title: &str, href: &str, node: &str, author: &str, time: &str, replier: Option<&str>) -> String {
    let reply = match replier {
        Some(r) => format!(" &nbsp;•&nbsp; 最后回复来自 <strong><a href=\"/member/{r}\">{r}</a></strong>"),
        None => String::new(),
    };
    format!(
        "<div class=\"cell item\"><table><tr><td>\
         <span class=\"item_title\"><a href=\"{href}\" class=\"topic-link\">{title}</a></span>\
         <span class=\"topic_info\"><a class=\"node\" href=\"/go/{node}\">{node}</a> &nbsp;•&nbsp; \
         <strong><a href=\"/member/{author}\">{author}</a></strong> &nbsp;•&nbsp; \
         <span title=\"{time}\">1 小时前</span>{reply}</span></td></tr></table></div>"
    )
}

fn page(entries: &[String]) -> String {
    format!(
        "<html><head><title>V2EX</title></head><body><div id=\"Main\"><div class=\"cell\">nav</div>{}</div></body></html>",
        entries.concat()
    )
}

fn ts(year: i32, month: u32, day: u32, hour: u32, minute: u32, second: u32, offset_seconds: i32) -> Timestamp {
    Timestamp { year, month, day, hour, minute, second, offset_seconds }
}

#[test]
fn topic_id_from_thread_path() {
    assert_eq!(topic_id_from_path("/t/958255#reply0"), 958255);
    assert_eq!(topic_id_from_path("/t/958255"), 958255);
    assert_eq!(topic_id_from_path("/t/1/extra"), 1);
}

#[test]
fn topic_id_without_number_is_zero() {
    assert_eq!(topic_id_from_path("/t/abc#reply0"), 0);
    assert_eq!(topic_id_from_path("/t/#reply0"), 0);
    assert_eq!(topic_id_from_path("/t"), 0);
    assert_eq!(topic_id_from_path(""), 0);
    assert_eq!(topic_id_from_path("/t/-5"), 0);
    assert_eq!(topic_id_from_path("/t/99999999999"), 0);
    assert_eq!(topic_id_from_path("/t/2147483647"), 2147483647);
    assert_eq!(topic_id_from_path("/t/2147483648"), 0);
}

#[test]
fn timestamp_attribute_parses_with_offset() {
    let t = parse_timestamp("2023-07-19 19:15:44 +0800").unwrap();
    assert_eq!(t, ts(2023, 7, 19, 19, 15, 44, 8 * 3600));
}

#[test]
fn timestamp_attribute_not_a_date() {
    assert_eq!(parse_timestamp("not-a-date"), None);
    assert_eq!(parse_timestamp(""), None);
}

#[test]
fn minute_string_formats() {
    assert_eq!(ts(2023, 7, 19, 19, 15, 44, 28800).minute_string(), "2023/07/19 19:15");
    assert_eq!(ts(5, 1, 2, 3, 4, 5, 0).minute_string(), "0005/01/02 03:04");
    assert_eq!(ts(12345, 12, 31, 23, 59, 0, 0).minute_string(), "+12345/12/31 23:59");
    assert_eq!(ts(-44, 3, 15, 0, 0, 0, 0).minute_string(), "-0044/03/15 00:00");
}

#[test]
fn page_extraction_keeps_order_and_fields() {
    let text = page(&[
        entry("First topic", "/t/958255#reply0", "qna", "alice", "2023-07-19 19:15:44 +0800", Some("bob")),
        entry("Second topic", "/t/12#reply3", "python", "carol", "2023-07-18 08:01:02 +0000", None),
    ]);
    let topics = parse_v2ex_page(text);
    assert_eq!(topics.len(), 2);
    assert_eq!(
        topics[0],
        V2exTopic {
            id: 958255,
            title: "First topic".to_string(),
            short_url: "/t/958255#reply0".to_string(),
            node: V2exNode { name: "qna".to_string(), sub_url: "/go/qna".to_string() },
            send_user: V2exUser { name: "alice".to_string(), sub_url: "/member/alice".to_string() },
            send_time: ts(2023, 7, 19, 19, 15, 44, 28800),
            last_reply_user: V2exUser { name: "bob".to_string(), sub_url: "/member/bob".to_string() },
        }
    );
    assert_eq!(topics[1].id, 12);
    assert_eq!(topics[1].title, "Second topic");
    assert_eq!(topics[1].send_time, ts(2023, 7, 18, 8, 1, 2, 0));
}

#[test]
fn single_strong_gives_same_author_and_replier() {
    let text = page(&[entry("Lonely", "/t/7#reply0", "qna", "dave", "2023-07-19 19:15:44 +0800", None)]);
    let topics = parse_v2ex_page(text);
    assert_eq!(topics.len(), 1);
    assert_eq!(topics[0].send_user, topics[0].last_reply_user);
    assert_eq!(topics[0].send_user.name, "dave");
    assert_eq!(topics[0].send_user.sub_url, "/member/dave");
}

#[test]
fn bad_timestamp_drops_only_its_entry() {
    let text = page(&[
        entry("Good", "/t/1#reply0", "qna", "alice", "2023-07-19 19:15:44 +0800", Some("bob")),
        entry("Bad", "/t/2#reply0", "qna", "alice", "not-a-date", Some("bob")),
        entry("Also good", "/t/3#reply0", "qna", "alice", "2023-07-19 20:00:00 +0800", Some("bob")),
    ]);
    let topics = parse_v2ex_page(text.clone());
    let ids: Vec<i32> = topics.iter().map(|t| t.id).collect();
    assert_eq!(ids, vec![1, 3]);

    let entries = parse_page_candidates(&text);
    assert_eq!(entries.len(), 3);
    assert!(matches!(&entries[0], Candidate::Accepted(t) if t.id == 1));
    assert!(matches!(entries[1], Candidate::Rejected(ExtractError::TimestampFormat)));
    assert!(matches!(&entries[2], Candidate::Accepted(t) if t.id == 3));
}

#[test]
fn entry_without_topic_link_is_skipped() {
    let text = page(&[
        "<div class=\"cell item\"><span>an advertisement</span></div>".to_string(),
        entry("Real", "/t/5#reply1", "qna", "erin", "2023-07-19 19:15:44 +0800", Some("frank")),
    ]);
    let entries = parse_page_candidates(&text);
    assert_eq!(entries.len(), 2);
    assert!(matches!(entries[0], Candidate::Skipped));
    assert!(matches!(&entries[1], Candidate::Accepted(t) if t.id == 5));
    let topics = parse_v2ex_page(text);
    assert_eq!(topics.len(), 1);
    assert_eq!(topics[0].id, 5);
}

#[test]
fn entry_without_topic_info_is_rejected() {
    let text = page(&[
        "<div class=\"cell item\"><a class=\"topic-link\" href=\"/t/9\">No info</a></div>".to_string(),
    ]);
    let entries = parse_page_candidates(&text);
    assert_eq!(entries.len(), 1);
    assert!(matches!(entries[0], Candidate::Rejected(ExtractError::Structure)));
    assert!(parse_v2ex_page(text).is_empty());
}

#[test]
fn built_tree_entries() {
    let doc = vec![
        el("div", &["cell", "item"], &[], "", 1),
        el("a", &["topic-link"], &[("href", "/t/4")], "t", 0),
        el("div", &["cell"], &[], "", 0),
        el("div", &["item", "cell"], &[], "", 0),
    ];
    let entries = extract_candidates(&doc);
    assert_eq!(entries.len(), 2);
    assert!(matches!(entries[0], Candidate::Rejected(ExtractError::Structure)));
    assert!(matches!(entries[1], Candidate::Skipped));
    assert!(matches!(extract_candidate(&doc, 3), Candidate::Skipped));
    assert!(extract_topics(&doc).is_empty());
}

#[test]
fn page_without_entries_is_empty() {
    assert!(parse_v2ex_page(String::new()).is_empty());
    assert!(parse_v2ex_page(page(&[])).is_empty());
}

#[test]
fn extraction_twice_gives_same_topics() {
    let text = page(&[
        entry("One", "/t/1#reply0", "qna", "alice", "2023-07-19 19:15:44 +0800", Some("bob")),
        entry("Two", "/t/2#reply0", "go", "carol", "2023-07-19 19:16:44 +0800", None),
    ]);
    assert_eq!(parse_v2ex_page(text.clone()), parse_v2ex_page(text));
}

fn el(tag: &str, classes: &[&str], attrs: &[(&str, &str)], inner: &str, descendants: usize) -> MarkupElement {
    MarkupElement {
        tag: tag.to_string(),
        classes: classes.iter().map(|c| c.to_string()).collect(),
        attrs: attrs.iter().map(|(k, v)| (k.to_string(), v.to_string())).collect(),
        inner_html: inner.to_string(),
        text: inner.to_string(),
        descendants,
    }
}

#[test]
fn topic_info_fragment_from_built_tree() {
    let doc = vec![
        el("span", &["topic_info"], &[], "", 7),
        el("a", &["node"], &[("class", "node"), ("href", "/go/qna")], "qna", 0),
        el("strong", &[], &[], "", 1),
        el("a", &[], &[("href", "/member/amy")], "amy", 0),
        el("span", &[], &[("title", "2023-07-19 19:15:44 +0800")], "now", 0),
        el("strong", &[], &[], "", 1),
        el("a", &[], &[("href", "/member/ben")], "ben", 0),
        el("p", &[], &[], "", 0),
    ];
    let parts = topic_info_parts(&doc, 0).unwrap();
    assert_eq!(parts.node, V2exNode { name: "qna".to_string(), sub_url: "/go/qna".to_string() });
    assert_eq!(parts.send_user.name, "amy");
    assert_eq!(parts.last_reply_user.name, "ben");
    assert_eq!(parts.time_attr, "2023-07-19 19:15:44 +0800");

    let mut no_title = doc.clone();
    no_title[4] = el("span", &[], &[], "now", 0);
    assert!(matches!(topic_info_parts(&no_title, 0), Err(ExtractError::TimestampFormat)));

    let mut no_strong = doc.clone();
    no_strong[2] = el("em", &[], &[], "", 1);
    no_strong[5] = el("em", &[], &[], "", 1);
    assert!(matches!(topic_info_parts(&no_strong, 0), Err(ExtractError::Structure)));
}

#[test]
fn display_line_and_url() {
    let t = V2exTopic {
        id: 1,
        title: "Hello".to_string(),
        short_url: "/t/1#reply0".to_string(),
        node: V2exNode { name: "qna".to_string(), sub_url: "/go/qna".to_string() },
        send_user: V2exUser { name: "a".to_string(), sub_url: "/member/a".to_string() },
        send_time: ts(2023, 7, 19, 19, 15, 44, 28800),
        last_reply_user: V2exUser { name: "a".to_string(), sub_url: "/member/a".to_string() },
    };
    assert_eq!(t.get_topic_url(), "https://www.v2ex.com/t/1#reply0");
    assert_eq!(t.list_item_format(), "title: Hello time: 2023/07/19 19:15");
}

fn info_page(title: &str, info: &str) -> String {
    page(&[format!(
        "<div class=\"cell item\"><a class=\"topic-link\" href=\"/t/5\">{title}</a>\
         <span class=\"topic_info\">{info}</span></div>"
    )])
}

#[test]
fn node_link_found_by_class() {
    let text = info_page(
        "T",
        "<strong><a href=\"/member/al\">al</a></strong><a class=\"node\" href=\"/go/qna\">QnA</a>\
         <span title=\"2023-07-19 19:15:44 +0800\">1h</span>",
    );
    let topics = parse_v2ex_page(text);
    assert_eq!(topics.len(), 1);
    assert_eq!(topics[0].node, V2exNode { name: "QnA".to_string(), sub_url: "/go/qna".to_string() });
    assert_eq!(topics[0].send_user.sub_url, "/member/al");
}

#[test]
fn missing_node_link_is_structure_error() {
    let text = info_page(
        "T",
        "<strong><a href=\"/member/al\">al</a></strong><span title=\"2023-07-19 19:15:44 +0800\">1h</span>",
    );
    let entries = parse_page_candidates(&text);
    assert_eq!(entries.len(), 1);
    assert!(matches!(entries[0], Candidate::Rejected(ExtractError::Structure)));
}

#[test]
fn timestamp_found_by_its_attribute() {
    let text = info_page(
        "T",
        "<a class=\"node\" href=\"/go/qna\">QnA</a><span class=\"sep\">-</span>\
         <strong><a href=\"/member/al\">al</a></strong><span title=\"2023-07-19 19:15:44 +0800\">1h</span>",
    );
    let topics = parse_v2ex_page(text);
    assert_eq!(topics.len(), 1);
    assert_eq!(topics[0].send_time, ts(2023, 7, 19, 19, 15, 44, 28800));
}

#[test]
fn missing_timestamp_attribute_is_format_error() {
    let text = info_page(
        "T",
        "<a class=\"node\" href=\"/go/qna\">QnA</a><strong><a href=\"/member/al\">al</a></strong><span>1h</span>",
    );
    let entries = parse_page_candidates(&text);
    assert!(matches!(entries[0], Candidate::Rejected(ExtractError::TimestampFormat)));
}

#[test]
fn titles_and_names_are_decoded_text() {
    let text = info_page(
        "A &amp; B",
        "<a class=\"node\" href=\"/go/q\">Q &lt;x&gt;</a><strong><a href=\"/member/u\">u&amp;v</a></strong>\
         <span title=\"2023-07-19 19:15:44 +0800\">x</span>",
    );
    let topics = parse_v2ex_page(text);
    assert_eq!(topics.len(), 1);
    assert_eq!(topics[0].title, "A & B");
    assert_eq!(topics[0].node.name, "Q <x>");
    assert_eq!(topics[0].send_user.name, "u&v");
    assert_eq!(topics[0].last_reply_user.name, "u&v");
}


#[test]
fn accepted_topics_keep_order() {
    let text = page(&[
        entry("One", "/t/1#reply0", "qna", "alice", "2023-07-19 19:15:44 +0800", Some("bob")),
        "<div class=\"cell item\">ad</div>".to_string(),
        entry("Bad", "/t/2#reply0", "qna", "alice", "not-a-date", None),
        entry("Three", "/t/3#reply0", "qna", "alice", "2023-07-19 19:15:44 +0800", None),
    ]);
    let candidates = parse_page_candidates(&text);
    assert_eq!(candidates.len(), 4);
    let topics = accepted_topics(candidates);
    let ids: Vec<i32> = topics.iter().map(|t| t.id).collect();
    assert_eq!(ids, vec![1, 3]);
    assert_eq!(topics, parse_v2ex_page(text));
    assert!(accepted_topics(Vec::new()).is_empty());
}
