//! HTML documents as the `scraper` crate parses them, read through CSS
//! selectors.  An element is known by the way it was reached: the document's
//! source and the chain of selectors, each with the index of the match taken.
use vstd::prelude::*;

verus! {

#[verifier::external_type_specification]
#[verifier::external_body]
pub struct ExHtml(scraper::Html);

#[verifier::external_type_specification]
#[verifier::external_body]
pub struct ExElementRef<'a>(scraper::ElementRef<'a>);

/// How many elements under the element at `path` match `selector`
/// (`Selector::parse` then `select`); none for a selector the crate refuses.
pub uninterp spec fn html_match_count(source: Seq<char>, path: Seq<(Seq<char>, nat)>, selector: Seq<char>) -> nat;

/// The value of an attribute of the element at `path`.
pub uninterp spec fn html_attr(source: Seq<char>, path: Seq<(Seq<char>, nat)>, name: Seq<char>) -> Option<Seq<char>>;

/// The text nodes under the element at `path`, in document order.
pub uninterp spec fn html_text(source: Seq<char>, path: Seq<(Seq<char>, nat)>) -> Seq<Seq<char>>;

/// A parsed HTML document.
pub struct HtmlDocument {
    html: scraper::Html,
    source: Ghost<Seq<char>>,
}

/// An element of a parsed document.
pub struct HtmlElement<'a> {
    node: scraper::ElementRef<'a>,
    source: Ghost<Seq<char>>,
    path: Ghost<Seq<(Seq<char>, nat)>>,
}

impl HtmlDocument {
    pub closed spec fn source(&self) -> Seq<char> {
        self.source@
    }

    /// `Html::parse_document`.
    #[verifier::external_body]
    pub(crate) fn parse(source: &str) -> (r: HtmlDocument)
        ensures
            r.source() == source@,
    {
        HtmlDocument { html: scraper::Html::parse_document(source), source: Ghost(source@) }
    }

    /// The elements of the document that match `selector`, in the crate's order.
    #[verifier::external_body]
    pub(crate) fn select<'a>(&'a self, selector: &str) -> (r: Vec<HtmlElement<'a>>)
        ensures
            r@.len() == html_match_count(self.source(), Seq::empty(), selector@),
            forall|i: int| 0 <= i < r@.len() ==> (#[trigger] r@[i]).source() == self.source()
                && r@[i].path() == Seq::<(Seq<char>, nat)>::empty().push((selector@, i as nat)),
    {
        let source = self.source;
        match scraper::Selector::parse(selector) {
            Ok(s) => self.html.select(&s).enumerate().map(|(i, node)| HtmlElement { node, source, path: Ghost(Seq::empty().push((selector@, i as nat))) }).collect(),
            Err(_) => Vec::new(),
        }
    }
}

impl<'a> HtmlElement<'a> {
    pub closed spec fn source(&self) -> Seq<char> {
        self.source@
    }

    pub closed spec fn path(&self) -> Seq<(Seq<char>, nat)> {
        self.path@
    }

    /// The elements under this one that match `selector`, in document order.
    #[verifier::external_body]
    pub(crate) fn select(&self, selector: &str) -> (r: Vec<HtmlElement<'a>>)
        ensures
            r@.len() == html_match_count(self.source(), self.path(), selector@),
            forall|i: int| 0 <= i < r@.len() ==> (#[trigger] r@[i]).source() == self.source()
                && r@[i].path() == self.path().push((selector@, i as nat)),
    {
        let (source, path) = (self.source, self.path);
        match scraper::Selector::parse(selector) {
            Ok(s) => self.node.select(&s).enumerate().map(|(i, node)| HtmlElement { node, source, path: Ghost(path@.push((selector@, i as nat))) }).collect(),
            Err(_) => Vec::new(),
        }
    }

    /// `ElementRef::attr`: the value of one attribute.
    #[verifier::external_body]
    pub(crate) fn attr(&self, name: &str) -> (r: Option<String>)
        ensures
            match r {
                Some(v) => html_attr(self.source(), self.path(), name@) == Some(v@),
                None => html_attr(self.source(), self.path(), name@) is None,
            },
    {
        self.node.attr(name).map(|v| v.to_owned())
    }

    /// `ElementRef::text`: the text nodes under the element, in document order.
    #[verifier::external_body]
    pub(crate) fn text(&self) -> (r: Vec<String>)
        ensures
            r@.len() == html_text(self.source(), self.path()).len(),
            forall|i: int| 0 <= i < r@.len() ==> (#[trigger] r@[i])@ == html_text(self.source(), self.path())[i],
    {
        self.node.text().map(|t| t.to_owned()).collect()
    }
}

} // verus!
