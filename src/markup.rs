use vstd::prelude::*;

verus! {

/// One element of a parsed document. The elements of a document are kept in
/// document order; the descendants of the element at index `i` are the
/// `descendants` elements that follow it.
#[derive(Clone, Debug)]
pub struct MarkupElement {
    pub tag: String,
    pub classes: Vec<String>,
    pub attrs: Vec<(String, String)>,
    pub inner_html: String,
    /// The decoded text of the element's descendant text nodes, in order.
    pub text: String,
    pub descendants: usize,
}

/// The mathematical content of a `MarkupElement`.
pub struct ElementView {
    pub tag: Seq<char>,
    pub classes: Seq<Seq<char>>,
    pub attrs: Seq<(Seq<char>, Seq<char>)>,
    pub inner_html: Seq<char>,
    pub text: Seq<char>,
    pub descendants: nat,
}

impl View for MarkupElement {
    type V = ElementView;

    open spec fn view(&self) -> ElementView {
        ElementView {
            tag: self.tag@,
            classes: self.classes@.map_values(|c: String| c@),
            attrs: self.attrs@.map_values(|a: (String, String)| (a.0@, a.1@)),
            inner_html: self.inner_html@,
            text: self.text@,
            descendants: self.descendants as nat,
        }
    }
}

pub open spec fn doc_view(doc: Seq<MarkupElement>) -> Seq<ElementView> {
    doc.map_values(|e: MarkupElement| e@)
}

/// The elements of the document that an HTML parser builds from `text`.
pub uninterp spec fn markup_of(text: Seq<char>) -> Seq<ElementView>;

/// Relies on scraper::Html::parse_document (built with its `deterministic`
/// feature, so attributes keep their source order): it parses any text into a
/// document tree, whose elements are listed here in document order with their
/// name, classes, attributes, inner HTML, decoded text and number of
/// descendant elements.
#[verifier::external_body]
pub(crate) fn parse_markup(text: &str) -> (r: Vec<MarkupElement>)
    ensures
        doc_view(r@) == markup_of(text@),
{
    let html = scraper::Html::parse_document(text);
    let mut out = Vec::new();
    for e in html.root_element().descendants().filter_map(scraper::ElementRef::wrap) {
        out.push(MarkupElement {
            tag: e.value().name().to_string(),
            classes: e.value().classes().map(str::to_string).collect(),
            attrs: e.value().attrs().map(|(k, v)| (k.to_string(), v.to_string())).collect(),
            inner_html: e.inner_html(),
            text: e.text().collect(),
            descendants: e.descendants().skip(1).filter_map(scraper::ElementRef::wrap).count(),
        });
    }
    out
}

/// One past the last descendant of element `i`, clipped to the document.
pub open spec fn scope_end(doc: Seq<ElementView>, i: int) -> int {
    if i + 1 + doc[i].descendants <= doc.len() {
        i + 1 + doc[i].descendants
    } else {
        doc.len() as int
    }
}

/// Whether an element has the class `name` (when `by_class`) or the tag `name`.
pub open spec fn element_matches(e: ElementView, by_class: bool, name: Seq<char>) -> bool {
    if by_class {
        e.classes.contains(name)
    } else {
        e.tag == name
    }
}

/// The first index in `lo..hi` whose element matches.
pub open spec fn first_match(
    doc: Seq<ElementView>,
    lo: int,
    hi: int,
    by_class: bool,
    name: Seq<char>,
) -> Option<int>
    decreases hi - lo,
{
    if lo >= hi {
        None
    } else if element_matches(doc[lo], by_class, name) {
        Some(lo)
    } else {
        first_match(doc, lo + 1, hi, by_class, name)
    }
}

/// The last index in `lo..hi` whose element matches.
pub open spec fn last_match(
    doc: Seq<ElementView>,
    lo: int,
    hi: int,
    by_class: bool,
    name: Seq<char>,
) -> Option<int>
    decreases hi - lo,
{
    if lo >= hi {
        None
    } else if element_matches(doc[hi - 1], by_class, name) {
        Some(hi - 1)
    } else {
        last_match(doc, lo, hi - 1, by_class, name)
    }
}

/// The value of the first attribute named `key`, looking from position `k` on.
pub open spec fn attr_from(attrs: Seq<(Seq<char>, Seq<char>)>, key: Seq<char>, k: int) -> Option<
    Seq<char>,
>
    decreases attrs.len() - k,
{
    if k < 0 || k >= attrs.len() {
        None
    } else if attrs[k].0 == key {
        Some(attrs[k].1)
    } else {
        attr_from(attrs, key, k + 1)
    }
}

pub open spec fn attr_of(e: ElementView, key: Seq<char>) -> Option<Seq<char>> {
    attr_from(e.attrs, key, 0)
}

/// The first index in `lo..hi` whose element has an attribute named `key`.
pub open spec fn first_with_attr(doc: Seq<ElementView>, lo: int, hi: int, key: Seq<char>) -> Option<int>
    decreases hi - lo,
{
    if lo >= hi {
        None
    } else if attr_of(doc[lo], key) is Some {
        Some(lo)
    } else {
        first_with_attr(doc, lo + 1, hi, key)
    }
}

/// Character-wise equality of two strings.
pub fn str_eq(a: &str, b: &str) -> (r: bool)
    ensures
        r == (a@ == b@),
{
    let n = a.unicode_len();
    if n != b.unicode_len() {
        return false;
    }
    let mut i: usize = 0;
    while i < n
        invariant
            n == a@.len(),
            n == b@.len(),
            i <= n,
            a@.subrange(0, i as int) == b@.subrange(0, i as int),
        decreases n - i,
    {
        if a.get_char(i) != b.get_char(i) {
            return false;
        }
        assert(a@.subrange(0, i + 1) == a@.subrange(0, i as int).push(a@[i as int]));
        assert(b@.subrange(0, i + 1) == b@.subrange(0, i as int).push(b@[i as int]));
        i = i + 1;
    }
    assert(a@ == a@.subrange(0, n as int));
    assert(b@ == b@.subrange(0, n as int));
    true
}

impl MarkupElement {
    pub fn has_class(&self, name: &str) -> (r: bool)
        ensures
            r == self@.classes.contains(name@),
    {
        let mut i: usize = 0;
        while i < self.classes.len()
            invariant
                i <= self.classes@.len(),
                forall|j: int| 0 <= j < i ==> self.classes@[j]@ != name@,
            decreases self.classes.len() - i,
        {
            if str_eq(self.classes[i].as_str(), name) {
                assert(self@.classes[i as int] == name@);
                return true;
            }
            i = i + 1;
        }
        assert forall|j: int| 0 <= j < self@.classes.len() implies self@.classes[j] != name@ by {}
        false
    }

    pub fn matches(&self, by_class: bool, name: &str) -> (r: bool)
        ensures
            r == element_matches(self@, by_class, name@),
    {
        if by_class {
            self.has_class(name)
        } else {
            str_eq(self.tag.as_str(), name)
        }
    }

    /// The value of the first attribute named `key`.
    pub fn attr(&self, key: &str) -> (r: Option<&String>)
        ensures
            r matches Some(v) ==> attr_of(self@, key@) == Some(v@),
            r is None ==> attr_of(self@, key@) is None,
    {
        let mut i: usize = 0;
        while i < self.attrs.len()
            invariant
                i <= self.attrs@.len(),
                attr_of(self@, key@) == attr_from(self@.attrs, key@, i as int),
            decreases self.attrs.len() - i,
        {
            if str_eq(self.attrs[i].0.as_str(), key) {
                return Some(&self.attrs[i].1);
            }
            i = i + 1;
        }
        None
    }
}

pub open spec fn as_index(o: Option<usize>) -> Option<int> {
    match o {
        Some(k) => Some(k as int),
        None => None,
    }
}

/// One past the last descendant of element `i`, clipped to the document.
pub fn scope_end_of(doc: &Vec<MarkupElement>, i: usize) -> (r: usize)
    requires
        i < doc@.len(),
    ensures
        r == scope_end(doc_view(doc@), i as int),
{
    let d = doc[i].descendants;
    if d <= doc.len() - i - 1 {
        i + 1 + d
    } else {
        doc.len()
    }
}

/// The first index in `lo..hi` whose element matches.
pub fn find_first(doc: &Vec<MarkupElement>, lo: usize, hi: usize, by_class: bool, name: &str) -> (r:
    Option<usize>)
    requires
        hi <= doc@.len(),
    ensures
        as_index(r) == first_match(doc_view(doc@), lo as int, hi as int, by_class, name@),
        r matches Some(k) ==> lo <= k < hi,
{
    let mut k = lo;
    while k < hi
        invariant
            hi <= doc@.len(),
            lo <= k,
            first_match(doc_view(doc@), lo as int, hi as int, by_class, name@) == first_match(
                doc_view(doc@),
                k as int,
                hi as int,
                by_class,
                name@,
            ),
        decreases hi - k,
    {
        if doc[k].matches(by_class, name) {
            return Some(k);
        }
        k = k + 1;
    }
    None
}

/// The first index in `lo..hi` whose element has an attribute named `key`,
/// with that attribute's value.
pub fn find_first_with_attr<'a>(doc: &'a Vec<MarkupElement>, lo: usize, hi: usize, key: &str) -> (r: Option<(usize, &'a String)>)
    requires
        hi <= doc@.len(),
    ensures
        match first_with_attr(doc_view(doc@), lo as int, hi as int, key@) {
            Some(k) => r matches Some(p) && p.0 == k && attr_of(doc_view(doc@)[k], key@) == Some(p.1@),
            None => r is None,
        },
        r matches Some(p) ==> lo <= p.0 < hi,
{
    let mut k = lo;
    while k < hi
        invariant
            hi <= doc@.len(),
            lo <= k,
            first_with_attr(doc_view(doc@), lo as int, hi as int, key@) == first_with_attr(
                doc_view(doc@),
                k as int,
                hi as int,
                key@,
            ),
        decreases hi - k,
    {
        match doc[k].attr(key) {
            Some(v) => return Some((k, v)),
            None => {},
        }
        k = k + 1;
    }
    None
}

/// The last index in `lo..hi` whose element matches.
pub fn find_last(doc: &Vec<MarkupElement>, lo: usize, hi: usize, by_class: bool, name: &str) -> (r:
    Option<usize>)
    requires
        hi <= doc@.len(),
    ensures
        as_index(r) == last_match(doc_view(doc@), lo as int, hi as int, by_class, name@),
        r matches Some(k) ==> lo <= k < hi,
{
    let mut k = hi;
    while k > lo
        invariant
            hi <= doc@.len(),
            k <= hi,
            last_match(doc_view(doc@), lo as int, hi as int, by_class, name@) == last_match(
                doc_view(doc@),
                lo as int,
                k as int,
                by_class,
                name@,
            ),
        decreases k,
    {
        if doc[k - 1].matches(by_class, name) {
            return Some(k - 1);
        }
        k = k - 1;
    }
    None
}

} // verus!
