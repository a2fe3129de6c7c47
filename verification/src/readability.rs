//! The readable article of a page: its title, its main content as
//! sanitized HTML, and its plain text.
use vstd::prelude::*;

verus! {

/// The number of elements the extraction reads: all of them.
pub const MAX_ELEMENTS_TO_PARSE: usize = usize::MAX;

/// What an extraction yields.
#[derive(Debug, Clone)]
pub struct ReadabilityResponse {
    pub title: String,
    /// The main content, as sanitized HTML.
    pub content: String,
    pub text_content: String,
}

/// The article found in a page, before sanitizing.
#[derive(Debug, Clone)]
pub struct ArticleText {
    pub title: String,
    /// The main content, as HTML.
    pub content: String,
    pub text_content: String,
}

/// Why no article could be extracted.
#[derive(Debug, Clone, Copy, PartialEq, Eq, Structural)]
pub enum ExtractionError {
    /// The page could not be read or no article was found in it.
    Readability,
}

/// `ammonia::clean`: the HTML with ammonia's default policy applied.
pub uninterp spec fn sanitized_html_of(html: Seq<char>) -> Seq<char>;

/// The article `dom_smoothie` extracts from a page, reading at most
/// `max_elements` elements and no document URL: its title, its content as
/// HTML and its plain text; nothing where the page cannot be read or no
/// article is found.
pub uninterp spec fn readable_article_of(html: Seq<char>, max_elements: int) -> Option<
    (Seq<char>, Seq<char>, Seq<char>),
>;

/// `dom_smoothie::Readability::new` followed by `Readability::parse`,
/// keeping the title, the content and the text of the article; the outcome
/// is named by `readable_article_of`.
#[verifier::external_body]
fn extract_article(html: String, max_elements: usize) -> (r: Option<ArticleText>)
    ensures
        match r {
            Some(a) => readable_article_of(html@, max_elements as int) == Some(
                (a.title@, a.content@, a.text_content@),
            ),
            None => readable_article_of(html@, max_elements as int) is None,
        },
{
    let config = dom_smoothie::Config { max_elements_to_parse: max_elements, ..Default::default() };
    let mut readability = dom_smoothie::Readability::new(html, None, Some(config)).ok()?;
    let article = readability.parse().ok()?;
    Some(
        ArticleText {
            title: article.title,
            content: article.content.to_string(),
            text_content: article.text_content.to_string(),
        },
    )
}

/// `ammonia::clean`, named by `sanitized_html_of`.
#[verifier::external_body]
fn sanitize_html(content: &str) -> (r: String)
    ensures
        r@ == sanitized_html_of(content@),
{
    ammonia::clean(content)
}

/// The response for an article: its content sanitized, the rest as found.
pub fn readability_response(article: ArticleText) -> (r: ReadabilityResponse)
    ensures
        r.title == article.title,
        r.content@ == sanitized_html_of(article.content@),
        r.text_content == article.text_content,
{
    let content = sanitize_html(article.content.as_str());
    ReadabilityResponse { title: article.title, content, text_content: article.text_content }
}

/// Extracts the readable article of a page: the article `dom_smoothie`
/// finds, with its content sanitized; an error where it finds none.
pub fn process(raw_content: String) -> (r: Result<ReadabilityResponse, ExtractionError>)
    ensures
        match readable_article_of(raw_content@, MAX_ELEMENTS_TO_PARSE as int) {
            Some((title, content, text)) => r matches Ok(resp) && resp.title@ == title
                && resp.content@ == sanitized_html_of(content) && resp.text_content@ == text,
            None => r == Err::<ReadabilityResponse, ExtractionError>(ExtractionError::Readability),
        },
{
    match extract_article(raw_content, MAX_ELEMENTS_TO_PARSE) {
        Some(article) => Ok(readability_response(article)),
        None => Err(ExtractionError::Readability),
    }
}

} // verus!
