//! Web addresses as plain values.
use crate::text::maybe;
use vstd::prelude::*;

verus! {

/// The parts of a web address.
#[derive(Debug)]
pub struct Link {
    pub scheme: String,
    pub host: Option<String>,
    pub username: String,
    pub password: Option<String>,
    pub query: Option<String>,
    pub fragment: Option<String>,
    /// The address without its fragment.
    pub bare: String,
}

/// The words of a [`Link`].
pub struct LinkView {
    pub scheme: Seq<char>,
    pub host: Option<Seq<char>>,
    pub username: Seq<char>,
    pub password: Option<Seq<char>>,
    pub query: Option<Seq<char>>,
    pub fragment: Option<Seq<char>>,
    pub bare: Seq<char>,
}

impl View for Link {
    type V = LinkView;

    open spec fn view(&self) -> LinkView {
        LinkView {
            scheme: self.scheme@,
            host: maybe(self.host),
            username: self.username@,
            password: maybe(self.password),
            query: maybe(self.query),
            fragment: maybe(self.fragment),
            bare: self.bare@,
        }
    }
}

/// The address that a text spells, or what is wrong with the text.
pub uninterp spec fn link_of(text: Seq<char>) -> Result<LinkView, Seq<char>>;

/// The address that a reference spells when it stands in a document of the address `base`.
pub uninterp spec fn joined_link(base: Seq<char>, reference: Seq<char>) -> Option<LinkView>;

/// A link or the words of an error, by their views.
pub open spec fn linked(res: Result<Link, String>) -> Result<LinkView, Seq<char>> {
    match res {
        Ok(link) => Ok(link@),
        Err(words) => Err(words@),
    }
}

/// A link that may be missing, by its view.
pub open spec fn maybe_link(link: Option<Link>) -> Option<LinkView> {
    match link {
        Some(link) => Some(link@),
        None => None,
    }
}

/// `reqwest::Url::parse`: the parts of the address by its getters, the address without its fragment
/// by `set_fragment`, or the words of the parser's error; a function of the text, named `link_of`.
#[verifier::external_body]
pub(crate) fn parse(text: &str) -> (res: Result<Link, String>)
    ensures
        linked(res) == link_of(text@),
{
    let url = reqwest::Url::parse(text).map_err(|error| error.to_string())?;
    let mut bare = url.clone();
    bare.set_fragment(None);
    Ok(Link {
        scheme: url.scheme().to_owned(),
        host: url.host_str().map(str::to_owned),
        username: url.username().to_owned(),
        password: url.password().map(str::to_owned),
        query: url.query().map(str::to_owned),
        fragment: url.fragment().map(str::to_owned),
        bare: String::from(bare),
    })
}

/// `reqwest::Url::join` on the address that `base` spells: the parts of the address that the
/// reference spells there, if it spells one; a function of the two texts, named `joined_link`.
#[verifier::external_body]
pub(crate) fn join(base: &str, reference: &str) -> (res: Option<Link>)
    ensures
        maybe_link(res) == joined_link(base@, reference@),
{
    let url = reqwest::Url::parse(base).ok()?.join(reference).ok()?;
    let mut bare = url.clone();
    bare.set_fragment(None);
    Some(Link {
        scheme: url.scheme().to_owned(),
        host: url.host_str().map(str::to_owned),
        username: url.username().to_owned(),
        password: url.password().map(str::to_owned),
        query: url.query().map(str::to_owned),
        fragment: url.fragment().map(str::to_owned),
        bare: String::from(bare),
    })
}

} // verus!
