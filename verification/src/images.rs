//! The images of a saved article: which ones it shows, under which
//! identifier each is stored, and how the article is rewritten to point at
//! the stored copies.
use crate::identity::{
    bookmark_id_of, canonical_url, has_identity, identity_failure, make_bookmark_id, resolve_url, resolved_url, url_host_of,
    uuid_string, uuid_text, IdentityError, WebUrl,
};
use crate::tags::texts;
use crate::text::contains_text;
use vstd::prelude::*;

verus! {

/// The elements whose images are kept: images with a source.
pub const IMAGE_SELECTOR: &'static str = "img[src]";

/// The attribute holding an image's source.
pub const IMAGE_SOURCE: &'static str = "src";

/// The values of an attribute on the elements a CSS selector matches, in
/// document order, as `lol_html` reads them (empty where the attribute is
/// missing); nothing where the selector does not parse or `lol_html`
/// refuses the document.
pub uninterp spec fn attribute_values_of(
    html: Seq<char>,
    selector: Seq<char>,
    attribute: Seq<char>,
) -> Option<Seq<Seq<char>>>;

/// The HTML as `lol_html` writes it once the attribute of each element the
/// selector matches is set to `replacement_of(replacements, value)`, its
/// old value being `value`; nothing where the selector does not parse or
/// `lol_html` refuses the document or an attribute.
pub uninterp spec fn attributes_replaced_of(
    html: Seq<char>,
    selector: Seq<char>,
    attribute: Seq<char>,
    replacements: Seq<(Seq<char>, Seq<char>)>,
) -> Option<Seq<char>>;

/// The replacement of a value: the last pair for it, or the value itself.
pub open spec fn replacement_of(pairs: Seq<(Seq<char>, Seq<char>)>, value: Seq<char>) -> Seq<char>
    decreases pairs.len(),
{
    if pairs.len() == 0 {
        value
    } else if pairs.last().0 == value {
        pairs.last().1
    } else {
        replacement_of(pairs.drop_last(), value)
    }
}

/// The views of pairs of texts.
pub open spec fn pair_texts(pairs: Seq<(String, String)>) -> Seq<(Seq<char>, Seq<char>)> {
    pairs.map_values(|p: (String, String)| (p.0@, p.1@))
}

/// The replacement of a value: the last pair for it, or the value itself.
pub fn replacement_for(pairs: &Vec<(String, String)>, value: &String) -> (r: String)
    ensures
        r@ == replacement_of(pair_texts(pairs@), value@),
{
    let ghost ps = pair_texts(pairs@);
    let mut k: usize = pairs.len();
    assert(ps.take(k as int) =~= ps);
    while k > 0
        invariant
            0 <= k <= pairs@.len(),
            ps == pair_texts(pairs@),
            replacement_of(ps, value@) == replacement_of(ps.take(k as int), value@),
        decreases k,
    {
        assert(ps.take(k as int).drop_last() =~= ps.take(k - 1));
        if pairs[k - 1].0 == *value {
            return pairs[k - 1].1.clone();
        }
        k = k - 1;
    }
    value.clone()
}

/// `lol_html::rewrite_str` collecting the values of an attribute on the
/// elements a selector matches; nothing where the selector does not parse
/// or the rewriter fails. The outcome is named by `attribute_values_of`.
#[verifier::external_body]
fn attribute_values(html: &str, selector: &str, attribute: &str) -> (r: Option<Vec<String>>)
    ensures
        match r {
            Some(v) => attribute_values_of(html@, selector@, attribute@) == Some(texts(v@)),
            None => attribute_values_of(html@, selector@, attribute@) is None,
        },
{
    let selector: lol_html::Selector = selector.parse().ok()?;
    let mut found: Vec<String> = Vec::new();
    let handlers = lol_html::ElementContentHandlers::default().element(
        |el: &mut lol_html::html_content::Element| {
            found.push(el.get_attribute(attribute).unwrap_or_default());
            Ok(())
        },
    );
    let settings = lol_html::RewriteStrSettings::new().append_element_content_handler(
        (std::borrow::Cow::Owned(selector), handlers),
    );
    lol_html::rewrite_str(html, settings).ok()?;
    Some(found)
}

/// `lol_html::rewrite_str` setting the attribute of each element a selector
/// matches to its replacement (`replacement_for`); nothing where the
/// selector does not parse or the rewriter fails. The outcome is named by
/// `attributes_replaced_of`.
#[verifier::external_body]
fn replace_attributes(
    html: &str,
    selector: &str,
    attribute: &str,
    replacements: &Vec<(String, String)>,
) -> (r: Option<String>)
    ensures
        match r {
            Some(out) => attributes_replaced_of(
                html@,
                selector@,
                attribute@,
                pair_texts(replacements@),
            ) == Some(out@),
            None => attributes_replaced_of(
                html@,
                selector@,
                attribute@,
                pair_texts(replacements@),
            ) is None,
        },
{
    let selector: lol_html::Selector = selector.parse().ok()?;
    let handlers = lol_html::ElementContentHandlers::default().element(
        |el: &mut lol_html::html_content::Element| {
            let value = el.get_attribute(attribute).unwrap_or_default();
            el.set_attribute(attribute, replacement_for(replacements, &value).as_str())?;
            Ok(())
        },
    );
    let settings = lol_html::RewriteStrSettings::new().append_element_content_handler(
        (std::borrow::Cow::Owned(selector), handlers),
    );
    lol_html::rewrite_str(html, settings).ok()
}

/// An image an article shows.
pub struct ImageFound {
    /// The identifier the image is stored under.
    pub id: String,
    /// The source as written in the article.
    pub src: String,
    /// The absolute address of the image.
    pub url: WebUrl,
}

/// A downloaded image.
#[derive(Debug, Clone)]
pub struct Image {
    pub id: String,
    pub original_url: String,
    /// The source as written in the article.
    pub original_src: String,
    pub content_type: String,
    pub bytes: Vec<u8>,
}

/// Why the images of an article could not be handled.
#[derive(Debug, Clone, Copy, PartialEq, Eq, Structural)]
pub enum ImageError {
    /// The article could not be read or written.
    Rewriting,
    /// An image address has no identifier.
    Identity(IdentityError),
}

/// The sources of an article's images that resolve, with their addresses,
/// in document order; the others are skipped.
pub open spec fn resolved_images(base: Seq<char>, srcs: Seq<Seq<char>>) -> Seq<(Seq<char>, Seq<char>)>
    decreases srcs.len(),
{
    if srcs.len() == 0 {
        Seq::empty()
    } else {
        let r = resolved_images(base, srcs.drop_last());
        match resolved_url(base, srcs.last()) {
            Some(u) => r.push((srcs.last(), u)),
            None => r,
        }
    }
}

proof fn lemma_resolved_prefix(base: Seq<char>, s: Seq<Seq<char>>, n: int)
    requires
        0 <= n <= s.len(),
    ensures
        resolved_images(base, s.take(n)).len() <= resolved_images(base, s).len(),
        forall|k: int|
            0 <= k < resolved_images(base, s.take(n)).len() ==> resolved_images(base, s)[k]
                == resolved_images(base, s.take(n))[k],
    decreases s.len(),
{
    if n < s.len() {
        lemma_resolved_prefix(base, s.drop_last(), n);
        assert(s.drop_last().take(n) =~= s.take(n));
    } else {
        assert(s.take(n) =~= s);
    }
}

/// Where the identifier of the `i`-th source fails, and the images found
/// before it all have identities, the failure is that of a resolved image
/// all of whose predecessors have identities.
proof fn lemma_first_identity_failure(
    base: Seq<char>,
    all: Seq<Seq<char>>,
    i: int,
    found: Seq<ImageFound>,
    url: Seq<char>,
    e: IdentityError,
)
    requires
        0 <= i < all.len(),
        resolved_url(base, all[i]) == Some(url),
        identity_failure(url, e),
        found.len() == resolved_images(base, all.take(i)).len(),
        forall|k: int|
            0 <= k < found.len() ==> {
                &&& (#[trigger] found[k]).url@ == resolved_images(base, all.take(i))[k].1
                &&& url_host_of(found[k].url@) is Some
                &&& canonical_url(found[k].url@) is Some
            },
    ensures
        exists|m: int|
            0 <= m < resolved_images(base, all).len() && #[trigger] identity_failure(
                resolved_images(base, all)[m].1,
                e,
            ) && forall|j: int|
                0 <= j < m ==> has_identity(#[trigger] resolved_images(base, all)[j].1),
{
    let want = resolved_images(base, all.take(i));
    let next = resolved_images(base, all.take(i + 1));
    assert(all.take(i + 1).drop_last() =~= all.take(i));
    assert(next == want.push((all[i], url)));
    lemma_resolved_prefix(base, all, i + 1);
    let full = resolved_images(base, all);
    let m = want.len() as int;
    assert(full[m] == next[m]);
    assert forall|j: int| 0 <= j < m implies has_identity(#[trigger] full[j].1) by {
        assert(full[j] == next[j]);
        assert(next[j] == want[j]);
        assert(found[j].url@ == want[j].1);
    }
    assert(identity_failure(full[m].1, e));
}

/// The images of an article on the page at `base`: every image source
/// that resolves against the page (sources that do not are skipped), each
/// with the identifier of its address. It fails where `lol_html` cannot
/// read the sources, or at the first resolved image without a host or a
/// canonical form; otherwise it succeeds.
pub fn find_images(base: &WebUrl, content: &str) -> (r: Result<Vec<ImageFound>, ImageError>)
    ensures
        attribute_values_of(content@, IMAGE_SELECTOR@, IMAGE_SOURCE@) is None <==> r == Err::<
            Vec<ImageFound>,
            ImageError,
        >(ImageError::Rewriting),
        attribute_values_of(content@, IMAGE_SELECTOR@, IMAGE_SOURCE@) matches Some(srcs) ==> {
            let found = resolved_images(base@, srcs);
            (forall|i: int| 0 <= i < found.len() ==> has_identity(#[trigger] found[i].1)) ==> r is Ok
        },
        attribute_values_of(content@, IMAGE_SELECTOR@, IMAGE_SOURCE@) matches Some(srcs) ==> {
            let found = resolved_images(base@, srcs);
            r matches Err(ImageError::Identity(e)) ==> exists|i: int|
                0 <= i < found.len() && #[trigger] identity_failure(found[i].1, e) && forall|j: int|
                    0 <= j < i ==> has_identity(#[trigger] found[j].1)
        },
        r matches Ok(v) ==> attribute_values_of(content@, IMAGE_SELECTOR@, IMAGE_SOURCE@) matches Some(srcs) && {
            let found = resolved_images(base@, srcs);
            &&& v@.len() == found.len()
            &&& forall|i: int|
                0 <= i < v@.len() ==> {
                    &&& (#[trigger] v@[i]).src@ == found[i].0
                    &&& v@[i].url@ == found[i].1
                    &&& url_host_of(v@[i].url@) is Some
                    &&& canonical_url(v@[i].url@) matches Some(c) && v@[i].id@ == bookmark_id_of(c)
                }
        },
{
    let srcs = match attribute_values(content, IMAGE_SELECTOR, IMAGE_SOURCE) {
        Some(v) => v,
        None => return Err(ImageError::Rewriting),
    };
    let ghost all = texts(srcs@);
    let mut found: Vec<ImageFound> = Vec::new();
    let mut i: usize = 0;
    while i < srcs.len()
        invariant
            0 <= i <= srcs@.len(),
            all == texts(srcs@),
            attribute_values_of(content@, IMAGE_SELECTOR@, IMAGE_SOURCE@) == Some(all),
            ({
                let want = resolved_images(base@, all.take(i as int));
                &&& found@.len() == want.len()
                &&& forall|k: int|
                    0 <= k < found@.len() ==> {
                        &&& (#[trigger] found@[k]).src@ == want[k].0
                        &&& found@[k].url@ == want[k].1
                        &&& url_host_of(found@[k].url@) is Some
                        &&& canonical_url(found@[k].url@) matches Some(c) && found@[k].id@
                            == bookmark_id_of(c)
                    }
            }),
        decreases srcs@.len() - i,
    {
        let ghost before = found@;
        assert(all.take(i + 1).drop_last() =~= all.take(i as int));
        let src = &srcs[i];
        match resolve_url(base, src.as_str()) {
            Some(url) => {
                let id = match make_bookmark_id(&url) {
                    Ok(id) => id,
                    Err(e) => {
                        proof {
                            lemma_first_identity_failure(base@, all, i as int, found@, url@, e);
                            assert(attribute_values_of(content@, IMAGE_SELECTOR@, IMAGE_SOURCE@)->0 == all);
                        }
                        return Err(ImageError::Identity(e));
                    },
                };
                found.push(ImageFound { id, src: src.clone(), url });
                assert(found@.drop_last() =~= before);
            },
            None => {},
        }
        i = i + 1;
    }
    assert(all.take(i as int) =~= all);
    Ok(found)
}

/// Where a stored image is served: under the user, the bookmark and the
/// image's identifier.
pub open spec fn static_path(user_id: u128, bookmark_id: Seq<char>, image_id: Seq<char>) -> Seq<
    char,
> {
    "/static/"@ + uuid_text(user_id) + "/"@ + bookmark_id + "/"@ + image_id
}

/// Where a stored image is served.
pub fn static_image_path(user_id: u128, bookmark_id: &str, image_id: &str) -> (r: String)
    ensures
        r@ == static_path(user_id, bookmark_id@, image_id@),
{
    String::from_str("/static/").concat(uuid_string(user_id).as_str()).concat("/").concat(
        bookmark_id,
    ).concat("/").concat(image_id)
}

/// For each image, its source in the article and where its copy is served.
pub open spec fn image_replacements(
    user_id: u128,
    bookmark_id: Seq<char>,
    images: Seq<Image>,
) -> Seq<(Seq<char>, Seq<char>)> {
    images.map_values(
        |img: Image| (img.original_src@, static_path(user_id, bookmark_id, img.id@)),
    )
}

/// Rewrites an article so that each image source with a stored copy points
/// at that copy; other sources are left as they are. It fails exactly where
/// `lol_html` refuses the document.
pub fn rewrite_images(bookmark_id: &str, user_id: u128, content: &str, images: &Vec<Image>) -> (r:
    Result<String, ImageError>)
    ensures
        match attributes_replaced_of(
            content@,
            IMAGE_SELECTOR@,
            IMAGE_SOURCE@,
            image_replacements(user_id, bookmark_id@, images@),
        ) {
            Some(out) => r matches Ok(html) && html@ == out,
            None => r == Err::<String, ImageError>(ImageError::Rewriting),
        },
{
    let mut pairs: Vec<(String, String)> = Vec::new();
    let mut i: usize = 0;
    while i < images.len()
        invariant
            0 <= i <= images@.len(),
            pair_texts(pairs@) == image_replacements(user_id, bookmark_id@, images@.take(i as int)),
        decreases images@.len() - i,
    {
        let img = &images[i];
        let path = static_image_path(user_id, bookmark_id, img.id.as_str());
        let ghost before = pair_texts(pairs@);
        pairs.push((img.original_src.clone(), path));
        assert(pair_texts(pairs@) =~= before.push(
            (img.original_src@, static_path(user_id, bookmark_id@, img.id@)),
        ));
        assert(image_replacements(user_id, bookmark_id@, images@.take(i + 1)) =~= image_replacements(
            user_id,
            bookmark_id@,
            images@.take(i as int),
        ).push((img.original_src@, static_path(user_id, bookmark_id@, img.id@))));
        i = i + 1;
    }
    assert(images@.take(i as int) =~= images@);
    match replace_attributes(content, IMAGE_SELECTOR, IMAGE_SOURCE, &pairs) {
        Some(html) => Ok(html),
        None => Err(ImageError::Rewriting),
    }
}

/// The sources of some images.
pub open spec fn sources(images: Seq<Image>) -> Seq<Seq<char>> {
    images.map_values(|img: Image| img.original_src@)
}

/// No image after position `i` has the source of image `i`.
pub open spec fn is_last_of_source(all: Seq<Image>, i: int) -> bool {
    forall|j: int| i < j < all.len() ==> (#[trigger] all[j]).original_src@ != all[i].original_src@
}

/// The images from position `n` on that are the last with their source,
/// from the last given back to the first.
pub open spec fn last_per_source_from(all: Seq<Image>, n: int) -> Seq<Image>
    decreases all.len() - n,
{
    if n < 0 || n >= all.len() {
        Seq::empty()
    } else {
        let r = last_per_source_from(all, n + 1);
        if is_last_of_source(all, n) {
            r.push(all[n])
        } else {
            r
        }
    }
}

proof fn lemma_last_per_source_sources(all: Seq<Image>, n: int)
    requires
        0 <= n <= all.len(),
    ensures
        forall|t: Seq<char>|
            #[trigger] sources(last_per_source_from(all, n)).contains(t) <==> sources(
                all.subrange(n, all.len() as int),
            ).contains(t),
    decreases all.len() - n,
{
    if n < all.len() {
        lemma_last_per_source_sources(all, n + 1);
        let r = last_per_source_from(all, n + 1);
        let tail = sources(all.subrange(n + 1, all.len() as int));
        let here = sources(all.subrange(n, all.len() as int));
        assert(here =~= seq![all[n].original_src@] + tail);
        if is_last_of_source(all, n) {
            assert(sources(r.push(all[n])) =~= sources(r).push(all[n].original_src@));
        } else {
            let j = choose|j: int|
                n < j < all.len() && (#[trigger] all[j]).original_src@ == all[n].original_src@;
            assert(tail[j - n - 1] == all[n].original_src@);
        }
        assert forall|t: Seq<char>| here.contains(t) <==> (t == all[n].original_src@
            || tail.contains(t)) by {
            if here.contains(t) {
                let k = choose|k: int| 0 <= k < here.len() && here[k] == t;
                if k > 0 {
                    assert(tail[k - 1] == t);
                }
            }
            if tail.contains(t) {
                let k = choose|k: int| 0 <= k < tail.len() && tail[k] == t;
                assert(here[k + 1] == t);
            }
            if t == all[n].original_src@ {
                assert(here[0] == t);
            }
        }
        if is_last_of_source(all, n) {
            let out = sources(r.push(all[n]));
            assert(last_per_source_from(all, n) == r.push(all[n]));
            assert forall|t: Seq<char>| out.contains(t) <==> (t == all[n].original_src@
                || sources(r).contains(t)) by {
                if out.contains(t) {
                    let k = choose|k: int| 0 <= k < out.len() && out[k] == t;
                    if k < r.len() {
                        assert(sources(r)[k] == t);
                    }
                }
                if sources(r).contains(t) {
                    let k = choose|k: int| 0 <= k < sources(r).len() && sources(r)[k] == t;
                    assert(out[k] == t);
                }
                if t == all[n].original_src@ {
                    assert(out[out.len() - 1] == t);
                }
            }
        } else {
            assert(last_per_source_from(all, n) == r);
            let j = choose|j: int|
                n < j < all.len() && (#[trigger] all[j]).original_src@ == all[n].original_src@;
            assert(tail[j - n - 1] == all[n].original_src@);
            assert(tail.contains(all[n].original_src@));
        }
    } else {
        assert(sources(all.subrange(n, all.len() as int)) =~= Seq::<Seq<char>>::empty());
    }
}

/// The images indexed by their source: of the images sharing a source only
/// the last given is kept.
pub fn index_images(images: Vec<Image>) -> (r: Vec<Image>)
    ensures
        r@ == last_per_source_from(images@, 0),
{
    let ghost all = images@;
    let mut rest = images;
    let mut kept: Vec<Image> = Vec::new();
    let mut seen: Vec<String> = Vec::new();
    while rest.len() > 0
        invariant
            rest@.len() <= all.len(),
            rest@ == all.take(rest@.len() as int),
            texts(seen@) == sources(kept@),
            kept@ == last_per_source_from(all, rest@.len() as int),
        decreases rest@.len(),
    {
        let ghost n = rest@.len() as int;
        let img = rest.pop().unwrap();
        assert(all[n - 1] == img);
        assert(rest@ =~= all.take(n - 1));
        proof {
            lemma_last_per_source_sources(all, n);
            let tail = sources(all.subrange(n, all.len() as int));
            if is_last_of_source(all, n - 1) {
                assert forall|k: int| 0 <= k < tail.len() implies tail[k] != img.original_src@ by {
                    assert(tail[k] == all[n + k].original_src@);
                }
            } else {
                let j = choose|j: int|
                    n - 1 < j < all.len() && (#[trigger] all[j]).original_src@
                        == all[n - 1].original_src@;
                assert(tail[j - n] == img.original_src@);
            }
        }
        if !contains_text(&seen, &img.original_src) {
            let ghost old_seen = texts(seen@);
            let ghost old_kept = kept@;
            let src = img.original_src.clone();
            seen.push(src);
            kept.push(img);
            assert(texts(seen@) =~= old_seen.push(all[n - 1].original_src@));
            assert(sources(kept@) =~= sources(old_kept).push(all[n - 1].original_src@));
        }
    }
    kept
}

} // verus!
