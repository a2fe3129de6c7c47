//! The prompts sent to the language model: the instructions it is given
//! and how the text of a bookmark, tags or a question is placed in them.
use crate::tags::texts;
use vstd::prelude::*;

verus! {

/// The system prompt of every request.
pub const SYSTEM_PROMPT: &'static str = r#"You are an expert researcher. Follow these instructions when responding:
  - The user is a highly experienced analyst, no need to simplify it, be as detailed as possible and make sure your response is correct.
  - Be highly organized.
  - Treat me as an expert in all subject matter.
  - Mistakes erode my trust, so be accurate and thorough.
  - Be succinct and cohesive.
"#;

/// Asks for the tags of a slice of text.
pub const TAGS_PROMPT_PREFIX: &'static str = r#"Extract up to 5 tags from this text slice.
    Each tag must be 1-2 words maximum (e.g., "rust", "async runtime", "postgresql").
    Focus on programming and technology topics.
    Avoid generic terms like "programming", "technology", "software", or "code".
    Only include tags that are specific and meaningful to this content.
    It's ok to return fewer tags or none if nothing specific stands out.
    Here's the text: "#;

/// Asks to consolidate tags.
pub const CONSOLIDATE_TAGS_PROMPT_PREFIX: &'static str = r#"Consolidate these tags into a final list of maximum 7 tags.
    Merge synonyms and related concepts into the most specific term.
    Each tag must be 1-2 words maximum. Remove anything generic or redundant.
    Prefer specific terms over broad ones (e.g., "tokio" over "async", "react hooks" over "frontend").
    Here are the tags: "#;

/// Asks for the summary of a slice of text.
pub const SUMMARY_PROMPT_PREFIX: &'static str = r#"The following text is a slice of a bigger article.
    I'm asking you to produce a short summary of it that better describes this slice of text.
    Most of the text will be related to programming and technology, so focus on that.
    Avoid topics that are too broad or generic, try to focus on what will make this piece distinct.
    It's ok to not provide any summary if you think there's nothing relevant to point out.
    Try to be very succinct, one sentence would be the ideal.
    Here's the text: "#;

/// Asks to consolidate summaries.
pub const CONSOLIDATE_SUMMARY_PROMPT_PREFIX: &'static str = r#"I'll give you a list of summaries, they come from slices of an article.
    Most of the summaries are related to programming and technology.
    Most of the summaries look like duplicated, redundant or ambiguous.
    Try to produce a new consolidated summary of them all, that is more clear and succinct.
    Less is better, give me maximum of 3 sentences.
    Here are the summaries, separated by new lines: "#;

/// Asks for variations of a question.
pub const SIMILAR_QUESTIONS_PROMPT_PREFIX: &'static str = r#"Given the following question, generate 4 additional similar questions that would help find the same or related information. The questions should be variations with different phrasings, perspectives, or levels of specificity.

Original question: "#;

/// Asks whether a chunk helps answer a question; `{question}` and `{chunk}`
/// stand for them.
pub const RELEVANCE_PROMPT_TEMPLATE: &'static str = r#"Assess whether the given text chunk is relevant to answering the question.

Question: {question}

Text chunk: {chunk}

Evaluate if this chunk contains information that would help answer the question. Respond with:
- relevant: true/false
- explanation: brief explanation of why it is or isn't relevant"#;

/// The answer prompt up to the context.
pub const ANSWER_PROMPT_HEAD: &'static str = r#"Given this context information, answer the following question. If the context doesn't contain enough information to answer the question, say so clearly.

Context:
"#;

/// The answer prompt between the context and the question.
pub const ANSWER_PROMPT_MIDDLE: &'static str = r#"

Question: "#;

/// The answer prompt after the question.
pub const ANSWER_PROMPT_TAIL: &'static str = r#"

Provide a clear, accurate answer based on the context provided. If you cannot answer based on the context, explain what information would be needed."#;

/// Texts joined with `sep` between each two.
pub open spec fn joined(parts: Seq<Seq<char>>, sep: Seq<char>) -> Seq<char>
    decreases parts.len(),
{
    if parts.len() == 0 {
        Seq::empty()
    } else if parts.len() == 1 {
        parts[0]
    } else {
        joined(parts.drop_last(), sep) + sep + parts.last()
    }
}

/// Joins texts with `sep` between each two.
pub fn join_texts(parts: &[String], sep: &str) -> (r: String)
    ensures
        r@ == joined(texts(parts@), sep@),
{
    let ghost ps = texts(parts@);
    let mut r = String::new();
    let mut i: usize = 0;
    while i < parts.len()
        invariant
            0 <= i <= parts@.len(),
            ps == texts(parts@),
            r@ == joined(ps.take(i as int), sep@),
        decreases parts@.len() - i,
    {
        if i > 0 {
            r.append(sep);
        }
        r.append(parts[i].as_str());
        assert(ps.take(i + 1).drop_last() =~= ps.take(i as int));
        i = i + 1;
    }
    assert(ps.take(i as int) =~= ps);
    r
}

/// `s` with each occurrence of `pat`, from the left and without overlap,
/// replaced by `rep`.
pub open spec fn replace_all(s: Seq<char>, pat: Seq<char>, rep: Seq<char>) -> Seq<char>
    decreases s.len(),
{
    if pat.len() == 0 || s.len() < pat.len() {
        s
    } else if s.subrange(0, pat.len() as int) == pat {
        rep + replace_all(s.subrange(pat.len() as int, s.len() as int), pat, rep)
    } else {
        seq![s[0]] + replace_all(s.subrange(1, s.len() as int), pat, rep)
    }
}

/// `str::replace` with a non-empty pattern: every occurrence, from the left
/// and without overlap, replaced.
#[verifier::external_body]
fn replace_text(s: &str, pat: &str, rep: &str) -> (r: String)
    requires
        pat@.len() > 0,
    ensures
        r@ == replace_all(s@, pat@, rep@),
{
    s.replace(pat, rep)
}

/// A prompt prefix followed, on the next line, by a text.
pub open spec fn with_text(prefix: Seq<char>, text: Seq<char>) -> Seq<char> {
    prefix + "\n"@ + text
}

fn prompt_with(prefix: &str, text: &str) -> (r: String)
    ensures
        r@ == with_text(prefix@, text@),
{
    String::from_str(prefix).concat("\n").concat(text)
}

/// The prompt asking for the tags of a slice of text.
pub fn tags_prompt(text: &str) -> (r: String)
    ensures
        r@ == with_text(TAGS_PROMPT_PREFIX@, text@),
{
    prompt_with(TAGS_PROMPT_PREFIX, text)
}

/// The prompt asking to consolidate tags, listed with `, ` between them.
pub fn consolidate_tags_prompt(tags: &[String]) -> (r: String)
    ensures
        r@ == with_text(CONSOLIDATE_TAGS_PROMPT_PREFIX@, joined(texts(tags@), ", "@)),
{
    prompt_with(CONSOLIDATE_TAGS_PROMPT_PREFIX, join_texts(tags, ", ").as_str())
}

/// The prompt asking for the summary of a slice of text.
pub fn summary_prompt(text: &str) -> (r: String)
    ensures
        r@ == with_text(SUMMARY_PROMPT_PREFIX@, text@),
{
    prompt_with(SUMMARY_PROMPT_PREFIX, text)
}

/// The prompt asking to consolidate summaries, one per line.
pub fn consolidate_summary_prompt(summaries: &[String]) -> (r: String)
    ensures
        r@ == with_text(CONSOLIDATE_SUMMARY_PROMPT_PREFIX@, joined(texts(summaries@), "\n"@)),
{
    prompt_with(CONSOLIDATE_SUMMARY_PROMPT_PREFIX, join_texts(summaries, "\n").as_str())
}

/// The prompt asking for variations of a question.
pub fn similar_questions_prompt(question: &str) -> (r: String)
    ensures
        r@ == with_text(SIMILAR_QUESTIONS_PROMPT_PREFIX@, question@),
{
    prompt_with(SIMILAR_QUESTIONS_PROMPT_PREFIX, question)
}

/// The prompt asking whether a chunk helps answer a question: the question
/// is put in place of `{question}`, then the chunk in place of `{chunk}`.
pub fn relevance_prompt(question: &str, chunk: &str) -> (r: String)
    ensures
        r@ == replace_all(
            replace_all(RELEVANCE_PROMPT_TEMPLATE@, "{question}"@, question@),
            "{chunk}"@,
            chunk@,
        ),
{
    proof {
        reveal_strlit("{question}");
        reveal_strlit("{chunk}");
    }
    let with_question = replace_text(RELEVANCE_PROMPT_TEMPLATE, "{question}", question);
    replace_text(with_question.as_str(), "{chunk}", chunk)
}

/// The prompt asking for an answer from context chunks, separated by an
/// empty line.
pub open spec fn answer_prompt_text(question: Seq<char>, chunks: Seq<Seq<char>>) -> Seq<char> {
    ANSWER_PROMPT_HEAD@ + joined(chunks, "\n\n"@) + ANSWER_PROMPT_MIDDLE@ + question
        + ANSWER_PROMPT_TAIL@
}

/// The prompt asking for an answer from context chunks.
pub fn answer_prompt(question: &str, context_chunks: &[String]) -> (r: String)
    ensures
        r@ == answer_prompt_text(question@, texts(context_chunks@)),
{
    String::from_str(ANSWER_PROMPT_HEAD).concat(join_texts(context_chunks, "\n\n").as_str()).concat(
        ANSWER_PROMPT_MIDDLE,
    ).concat(question).concat(ANSWER_PROMPT_TAIL)
}

} // verus!
