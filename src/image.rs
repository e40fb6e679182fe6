//! One day's image record, its identity, and where it is fetched from and
//! stored.
use vstd::prelude::*;

use crate::config::{opt_text, pair_view, pairs_view, Config, URL_BASE};
use crate::opt::{extension_token, resolution_token, Extension, Resolution};

verus! {

/// Metadata of one day's image. Times are Unix seconds.
#[derive(Debug, PartialEq, Eq)]
pub struct Image {
    pub full_start_date: i64,
    pub end_date: i64,
    pub hash: String,
    pub title: String,
    pub url: String,
    pub url_base: String,
    pub copyright: String,
    pub copyright_link: String,
}

impl Clone for Image {
    fn clone(&self) -> (r: Image)
        ensures
            r == *self,
    {
        Image {
            full_start_date: self.full_start_date,
            end_date: self.end_date,
            hash: self.hash.clone(),
            title: self.title.clone(),
            url: self.url.clone(),
            url_base: self.url_base.clone(),
            copyright: self.copyright.clone(),
            copyright_link: self.copyright_link.clone(),
        }
    }
}

/// Two records name the same image when everything but their times agrees.
pub open spec fn same_image(a: Image, b: Image) -> bool {
    &&& a.hash@ == b.hash@
    &&& a.title@ == b.title@
    &&& a.url@ == b.url@
    &&& a.url_base@ == b.url_base@
    &&& a.copyright@ == b.copyright@
    &&& a.copyright_link@ == b.copyright_link@
}

/// Where the image is downloaded from: host, `url_base`, `_`, size, `.`, extension.
pub open spec fn download_url(img: Image, size: Resolution, ext: Extension) -> Seq<char> {
    URL_BASE@ + img.url_base@ + seq!['_'] + resolution_token(size) + seq!['.'] + extension_token(
        ext,
    )
}

/// The decoded query pairs of a URL as `url`'s `Url::parse` and
/// `Url::query_pairs` give them, or `None` when the URL does not parse.
pub uninterp spec fn url_query_pairs(url: Seq<char>) -> Option<Seq<(Seq<char>, Seq<char>)>>;

/// An optional list of string pairs seen as text.
pub open spec fn opt_pairs_view(o: Option<Vec<(String, String)>>) -> Option<
    Seq<(Seq<char>, Seq<char>)>,
> {
    match o {
        Some(v) => Some(pairs_view(v@)),
        None => None,
    }
}

/// Relies on url::Url::parse and Url::query_pairs: the query of the parsed
/// URL, decoded, in order.
#[verifier::external_body]
fn query_pairs(url: &str) -> (r: Option<Vec<(String, String)>>)
    ensures
        opt_pairs_view(r) == url_query_pairs(url@),
{
    let parsed = url::Url::parse(url).ok()?;
    Some(parsed.query_pairs().map(|(k, v)| (k.into_owned(), v.into_owned())).collect())
}

pub open spec fn id_key() -> Seq<char> {
    seq!['i', 'd']
}

/// Value of the first `id` pair.
pub open spec fn id_value(pairs: Seq<(Seq<char>, Seq<char>)>) -> Option<Seq<char>>
    decreases pairs.len(),
{
    if pairs.len() == 0 {
        None
    } else if pairs[0].0 == id_key() {
        Some(pairs[0].1)
    } else {
        id_value(pairs.drop_first())
    }
}

/// The stored file name: the hash, `_`, and the URL's `id` value.
pub open spec fn file_name_from(hash: Seq<char>, pairs: Option<Seq<(Seq<char>, Seq<char>)>>) -> Option<
    Seq<char>,
> {
    match pairs {
        Some(ps) => match id_value(ps) {
            Some(v) => Some(hash + seq!['_'] + v),
            None => None,
        },
        None => None,
    }
}

/// The file name of an image under the given size and extension.
pub open spec fn image_file_name(img: Image, size: Resolution, ext: Extension) -> Option<Seq<char>> {
    file_name_from(img.hash@, url_query_pairs(download_url(img, size, ext)))
}

/// The stored file name for `hash` given a URL's query pairs: `None` when
/// there are no pairs or no `id` among them.
pub fn file_name_from_pairs(hash: &String, pairs: &Option<Vec<(String, String)>>) -> (r: Option<
    String,
>)
    ensures
        opt_text(r) == file_name_from(hash@, opt_pairs_view(*pairs)),
{
    let ps = match pairs {
        Some(ps) => ps,
        None => return None,
    };
    let ghost view = pairs_view(ps@);
    proof {
        reveal_strlit("id");
    }
    let id = String::from_str("id");
    assert(id@ =~= id_key());
    let mut i: usize = 0;
    assert(view.subrange(0, view.len() as int) =~= view);
    while i < ps.len()
        invariant
            i <= ps.len(),
            view == pairs_view(ps@),
            opt_pairs_view(*pairs) == Some(view),
            id@ == id_key(),
            id_value(view) == id_value(view.subrange(i as int, view.len() as int)),
        decreases ps.len() - i,
    {
        let ghost rest = view.subrange(i as int, view.len() as int);
        assert(rest.drop_first() =~= view.subrange(i + 1, view.len() as int));
        assert(rest[0] == pair_view(ps@[i as int]));
        if ps[i].0 == id {
            let mut name = hash.clone();
            proof {
                reveal_strlit("_");
            }
            name.append("_");
            name.append(ps[i].1.as_str());
            assert(name@ =~= hash@ + seq!['_'] + ps@[i as int].1@);
            assert(rest[0].0 == id_key());
            assert(id_value(rest) == Some(rest[0].1));
            return Some(name);
        }
        i = i + 1;
    }
    assert(view.subrange(i as int, view.len() as int) =~= Seq::<(Seq<char>, Seq<char>)>::empty());
    None
}

impl Image {
    /// Whether the two records name the same image; their times are not compared.
    pub fn same_identity(&self, other: &Image) -> (r: bool)
        ensures
            r == same_image(*self, *other),
    {
        self.hash == other.hash && self.title == other.title && self.url == other.url
            && self.url_base == other.url_base && self.copyright == other.copyright
            && self.copyright_link == other.copyright_link
    }

    /// Where this image is downloaded from under the configured size and extension.
    pub fn to_url(&self, config: &Config) -> (r: String)
        ensures
            r@ == download_url(*self, config.size, config.ext),
    {
        let mut s = String::from_str(URL_BASE);
        s.append(self.url_base.as_str());
        proof {
            reveal_strlit("_");
            reveal_strlit(".");
        }
        s.append("_");
        let size = config.size.to_string();
        s.append(size.as_str());
        s.append(".");
        let ext = config.ext.to_string();
        s.append(ext.as_str());
        s
    }

    /// The name this image is stored under: `{hash}_{id}`, where `id` is the
    /// `id` query value of its download URL; `None` when that URL has none.
    pub fn file_name(&self, config: &Config) -> (r: Option<String>)
        ensures
            opt_text(r) == image_file_name(*self, config.size, config.ext),
    {
        let url = self.to_url(config);
        let pairs = query_pairs(url.as_str());
        file_name_from_pairs(&self.hash, &pairs)
    }
}

} // verus!
