//! Absolute addresses as the `url` crate parses and edits them.  A `WebUrl`
//! carries the crate's `Url` together with its serialization, which is the
//! view that contracts speak of: the crate compares URLs by their
//! serialization, so every property read from a URL is a function of it.
use vstd::prelude::*;

verus! {

#[verifier::external_type_specification]
#[verifier::external_body]
pub struct ExUrl(url::Url);

/// The serialization of `Url::parse(input)`, or the message of its error.
pub uninterp spec fn url_parse_outcome(input: Seq<char>) -> std::result::Result<Seq<char>, Seq<char>>;

/// `Url::scheme` of the URL with this serialization.
pub uninterp spec fn url_scheme_of(url: Seq<char>) -> Seq<char>;

/// `Url::path` of the URL with this serialization.
pub uninterp spec fn url_path_of(url: Seq<char>) -> Seq<char>;

/// `Url::host_str` of the URL with this serialization.
pub uninterp spec fn url_host_of(url: Seq<char>) -> Option<Seq<char>>;

/// The serialization after `Url::set_scheme(scheme)`.
pub uninterp spec fn url_after_set_scheme(url: Seq<char>, scheme: Seq<char>) -> Seq<char>;

/// The serialization after `Url::set_path(path)`.
pub uninterp spec fn url_after_set_path(url: Seq<char>, path: Seq<char>) -> Seq<char>;

/// The serialization after `Url::set_fragment(fragment)`.
pub uninterp spec fn url_after_set_fragment(url: Seq<char>, fragment: Option<Seq<char>>) -> Seq<char>;

/// The decoded pairs of `Url::query_pairs`, in order.
pub uninterp spec fn url_query_pairs_of(url: Seq<char>) -> Seq<(Seq<char>, Seq<char>)>;

/// The serialization after appending one pair through `Url::query_pairs_mut`.
pub uninterp spec fn url_after_append_pair(url: Seq<char>, key: Seq<char>, value: Seq<char>) -> Seq<char>;

/// An absolute URL.  Only the functions of this module build or change one,
/// and each keeps `text` equal to the serialization of `url`.
pub struct WebUrl {
    url: url::Url,
    text: String,
}

impl View for WebUrl {
    type V = Seq<char>;

    closed spec fn view(&self) -> Seq<char> {
        self.text@
    }
}

/// `Url::path_segments`: the path after its leading `/`, split at each `/`;
/// `None` when the path does not start with `/`.
pub open spec fn path_segments_of(url: Seq<char>) -> Option<Seq<Seq<char>>> {
    let path = url_path_of(url);
    if path.len() > 0 && path[0] == '/' {
        Some(crate::text::split(path.skip(1), '/'))
    } else {
        None
    }
}

impl WebUrl {
    /// `Url::parse`, with the serialization of the result or the message of
    /// the error.
    #[verifier::external_body]
    fn url_parse(input: &str) -> (r: std::result::Result<WebUrl, String>)
        ensures
            match r {
                Ok(u) => url_parse_outcome(input@) == Ok::<Seq<char>, Seq<char>>(u@),
                Err(m) => url_parse_outcome(input@) == Err::<Seq<char>, Seq<char>>(m@),
            },
    {
        match url::Url::parse(input) {
            Ok(url) => Ok(WebUrl { text: url.to_string(), url }),
            Err(e) => Err(e.to_string()),
        }
    }

    /// `Url::scheme`.
    #[verifier::external_body]
    fn url_scheme(&self) -> (r: String)
        ensures
            r@ == url_scheme_of(self@),
    {
        self.url.scheme().to_owned()
    }

    /// An absolute URL read from text, or the message of why it is none.
    pub fn parse(input: &str) -> (r: std::result::Result<WebUrl, String>)
        ensures
            match r {
                Ok(u) => url_parse_outcome(input@) == Ok::<Seq<char>, Seq<char>>(u@),
                Err(m) => url_parse_outcome(input@) == Err::<Seq<char>, Seq<char>>(m@),
            },
    {
        Self::url_parse(input)
    }

    /// The serialization.
    pub fn as_str(&self) -> (r: &str)
        ensures
            r@ == self@,
    {
        self.text.as_str()
    }

    /// The scheme.
    pub fn scheme(&self) -> (r: String)
        ensures
            r@ == url_scheme_of(self@),
    {
        self.url_scheme()
    }

    /// `Url::path`.
    #[verifier::external_body]
    pub(crate) fn path(&self) -> (r: String)
        ensures
            r@ == url_path_of(self@),
    {
        self.url.path().to_owned()
    }

    /// `Url::host_str`.
    #[verifier::external_body]
    pub(crate) fn host_str(&self) -> (r: Option<String>)
        ensures
            match r {
                Some(h) => url_host_of(self@) == Some(h@),
                None => url_host_of(self@) is None,
            },
    {
        self.url.host_str().map(|h| h.to_owned())
    }

    /// `Url::set_scheme`; a refused scheme leaves the URL unchanged.
    #[verifier::external_body]
    pub(crate) fn set_scheme(&mut self, scheme: &str)
        ensures
            final(self)@ == url_after_set_scheme(old(self)@, scheme@),
    {
        let _ = self.url.set_scheme(scheme);
        self.text = self.url.to_string();
    }

    /// `Url::set_path`.
    #[verifier::external_body]
    pub(crate) fn set_path(&mut self, path: &str)
        ensures
            final(self)@ == url_after_set_path(old(self)@, path@),
    {
        self.url.set_path(path);
        self.text = self.url.to_string();
    }

    /// `Url::set_fragment`.
    #[verifier::external_body]
    pub(crate) fn set_fragment(&mut self, fragment: Option<&str>)
        ensures
            final(self)@ == url_after_set_fragment(
                old(self)@,
                match fragment {
                    Some(f) => Some(f@),
                    None => None,
                },
            ),
    {
        self.url.set_fragment(fragment);
        self.text = self.url.to_string();
    }

    /// `Url::query_pairs`, each pair decoded into owned strings.
    #[verifier::external_body]
    pub(crate) fn query_pairs(&self) -> (r: Vec<(String, String)>)
        ensures
            r@.len() == url_query_pairs_of(self@).len(),
            forall|i: int|
                0 <= i < r@.len() ==> (#[trigger] r@[i]).0@ == url_query_pairs_of(self@)[i].0
                    && r@[i].1@ == url_query_pairs_of(self@)[i].1,
    {
        self.url.query_pairs().map(|(k, v)| (k.into_owned(), v.into_owned())).collect()
    }

    /// Appends one `key=value` pair to the query (`Url::query_pairs_mut`).
    #[verifier::external_body]
    pub(crate) fn append_pair(&mut self, key: &str, value: &str)
        ensures
            final(self)@ == url_after_append_pair(old(self)@, key@, value@),
    {
        self.url.query_pairs_mut().append_pair(key, value);
        self.text = self.url.to_string();
    }

    /// A second, equal URL (`Url::clone`).
    #[verifier::external_body]
    pub(crate) fn duplicate(&self) -> (r: WebUrl)
        ensures
            r@ == self@,
    {
        WebUrl { url: self.url.clone(), text: self.text.clone() }
    }

    /// `Url::path_segments`, as owned strings.
    pub fn path_segments(&self) -> (r: Option<Vec<String>>)
        ensures
            match r {
                Some(v) => path_segments_of(self@) matches Some(s) && v@.len() == s.len()
                    && forall|i: int| 0 <= i < v@.len() ==> (#[trigger] v@[i])@ == s[i],
                None => path_segments_of(self@) is None,
            },
    {
        let path = self.path();
        let chars = crate::text::chars_of(path.as_str());
        if chars.len() == 0 || chars[0] != '/' {
            return None;
        }
        let rest = crate::text::chars_range(&chars, 1, chars.len());
        assert(rest@ =~= chars@.skip(1));
        let ranges = crate::text::split_ranges(&rest, '/');
        let mut out: Vec<String> = Vec::new();
        let mut k: usize = 0;
        while k < ranges.len()
            invariant
                k <= ranges@.len(),
                out@.len() == k,
                ranges@.len() == crate::text::split(rest@, '/').len(),
                forall|m: int|
                    0 <= m < ranges@.len() ==> (#[trigger] ranges@[m]).0 <= ranges@[m].1 <= rest@.len()
                        && rest@.subrange(ranges@[m].0 as int, ranges@[m].1 as int)
                        == crate::text::split(rest@, '/')[m],
                forall|m: int| 0 <= m < k ==> (#[trigger] out@[m])@ == crate::text::split(rest@, '/')[m],
            decreases ranges@.len() - k,
        {
            let (a, b) = ranges[k];
            out.push(crate::text::string_of_range(&rest, a, b));
            k = k + 1;
        }
        Some(out)
    }
}

} // verus!
