use bookmark_hub::prompts::{
    answer_prompt, consolidate_summary_prompt, consolidate_tags_prompt, join_texts,
    relevance_prompt, similar_questions_prompt, summary_prompt, tags_prompt,
    CONSOLIDATE_SUMMARY_PROMPT_PREFIX, CONSOLIDATE_TAGS_PROMPT_PREFIX,
    SIMILAR_QUESTIONS_PROMPT_PREFIX, SUMMARY_PROMPT_PREFIX, TAGS_PROMPT_PREFIX,
};

fn strings(v: &[&str]) -> Vec<String> {
    v.iter().map(|s| s.to_string()).collect()
}

#[test]
fn texts_follow_their_prompt_on_a_new_line() {
    assert_eq!(tags_prompt("body"), format!("{TAGS_PROMPT_PREFIX}\nbody"));
    assert_eq!(summary_prompt("body"), format!("{SUMMARY_PROMPT_PREFIX}\nbody"));
    assert_eq!(
        similar_questions_prompt("why?"),
        format!("{SIMILAR_QUESTIONS_PROMPT_PREFIX}\nwhy?")
    );
}

#[test]
fn lists_are_joined_into_prompts() {
    assert_eq!(
        consolidate_tags_prompt(&strings(&["a", "b", "c"])),
        format!("{CONSOLIDATE_TAGS_PROMPT_PREFIX}\na, b, c")
    );
    assert_eq!(
        consolidate_summary_prompt(&strings(&["x", "y"])),
        format!("{CONSOLIDATE_SUMMARY_PROMPT_PREFIX}\nx\ny")
    );
    assert_eq!(join_texts(&[], ", "), "");
}

#[test]
fn relevance_prompt_places_question_and_chunk() {
    let p = relevance_prompt("What is Rust?", "Rust is a language.");
    assert!(p.contains("Question: What is Rust?\n\nText chunk: Rust is a language.\n\n"));
    assert!(!p.contains("{question}") && !p.contains("{chunk}"));
}

#[test]
fn answer_prompt_holds_context_then_question() {
    let p = answer_prompt("Q?", &strings(&["one", "two"]));
    assert!(p.contains("Context:\none\n\ntwo\n\nQuestion: Q?\n\nProvide"));
}
