//! Settings of the language-model features: chunk sizes, claim windows,
//! concurrency and retry limits, and the choice of providers.
use vstd::prelude::*;

verus! {

/// The largest number of seconds a claim window may span.
pub const MAX_CLAIM_WINDOW_SECS: u64 = 9_223_372_036_854_775;

/// Seconds an LLM request may take when the settings do not say.
pub const DEFAULT_REQUEST_TIMEOUT_SECS: u64 = 120;

/// Embedding dimension when the settings do not say.
pub const DEFAULT_EMBEDDING_DIMENSION: usize = 1024;

/// The Ollama address used when the settings do not give one.
pub const DEFAULT_OLLAMA_URL: &'static str = "http://localhost:11434";

/// The language-model settings.
#[derive(Debug, Clone)]
pub struct LlmParams {
    pub llm_provider: String,
    pub llm_embedding_provider: Option<String>,
    pub llm_text_model: Option<String>,
    pub llm_embedding_model: Option<String>,
    pub llm_embedding_dimension: Option<usize>,
    pub ai_text_chunk_size: Option<usize>,
    pub ai_text_chunk_overlap: Option<usize>,
    pub ai_embed_chunk_size: usize,
    pub ai_embed_chunk_overlap: usize,
    pub ai_text_claim_window_secs: u64,
    pub ai_embed_claim_window_secs: u64,
    pub llm_max_in_flight_total: usize,
    pub llm_max_in_flight_background: usize,
    pub llm_text_rpm_interactive: Option<u32>,
    pub llm_text_rpm_background: Option<u32>,
    pub llm_embed_rpm_interactive: Option<u32>,
    pub llm_embed_rpm_background: Option<u32>,
    pub llm_retry_base_delay_ms: u64,
    pub llm_retry_max_delay_ms: u64,
    /// The text of the Ollama URL.
    pub ollama_url: Option<String>,
    pub openai_api_key: Option<String>,
    pub anthropic_api_key: Option<String>,
    pub gemini_api_key: Option<String>,
    pub openrouter_api_key: Option<String>,
    pub llm_embedding_api_key: Option<String>,
    pub llm_request_timeout_secs: Option<u64>,
}

/// Settings that cannot be used, with the reason.
#[derive(Debug, Clone)]
pub struct SettingsError {
    pub message: String,
}

/// Whether a text equals a literal.
fn text_is(s: &String, lit: &'static str) -> (b: bool)
    ensures
        b == (s@ == lit@),
{
    *s == lit.to_owned()
}

fn settings_error(message: &'static str) -> (e: SettingsError)
    ensures
        e.message@ == message@,
{
    SettingsError { message: message.to_owned() }
}

/// The text chunk size: as given, or 1000 tokens for Ollama and 2000 for
/// the other providers.
pub open spec fn text_chunk_size_of(p: LlmParams) -> usize {
    match p.ai_text_chunk_size {
        Some(n) => n,
        None => if p.llm_provider@ == "ollama"@ {
            1000
        } else {
            2000
        },
    }
}

/// The text chunk overlap: as given, or 100 tokens for Ollama and 200 for
/// the other providers.
pub open spec fn text_chunk_overlap_of(p: LlmParams) -> usize {
    match p.ai_text_chunk_overlap {
        Some(n) => n,
        None => if p.llm_provider@ == "ollama"@ {
            100
        } else {
            200
        },
    }
}

/// The first rule the settings break, if any.
pub open spec fn runtime_settings_problem(p: LlmParams) -> Option<Seq<char>> {
    if text_chunk_size_of(p) == 0 {
        Some("AI_TEXT_CHUNK_SIZE must be greater than 0"@)
    } else if text_chunk_overlap_of(p) >= text_chunk_size_of(p) {
        Some("AI_TEXT_CHUNK_OVERLAP must be smaller than AI_TEXT_CHUNK_SIZE"@)
    } else if p.ai_embed_chunk_size == 0 {
        Some("AI_EMBED_CHUNK_SIZE must be greater than 0"@)
    } else if p.ai_embed_chunk_overlap >= p.ai_embed_chunk_size {
        Some("AI_EMBED_CHUNK_OVERLAP must be smaller than AI_EMBED_CHUNK_SIZE"@)
    } else if p.llm_max_in_flight_total == 0 {
        Some("LLM_MAX_IN_FLIGHT_TOTAL must be greater than 0"@)
    } else if p.llm_max_in_flight_background > p.llm_max_in_flight_total {
        Some(
            "LLM_MAX_IN_FLIGHT_BACKGROUND must be less than or equal to LLM_MAX_IN_FLIGHT_TOTAL"@,
        )
    } else if p.ai_text_claim_window_secs == 0 {
        Some("AI_TEXT_CLAIM_WINDOW_SECS must be greater than 0"@)
    } else if p.ai_embed_claim_window_secs == 0 {
        Some("AI_EMBED_CLAIM_WINDOW_SECS must be greater than 0"@)
    } else if p.llm_retry_base_delay_ms == 0 {
        Some("LLM_RETRY_BASE_DELAY_MS must be greater than 0"@)
    } else if p.llm_retry_max_delay_ms < p.llm_retry_base_delay_ms {
        Some(
            "LLM_RETRY_MAX_DELAY_MS must be greater than or equal to LLM_RETRY_BASE_DELAY_MS"@,
        )
    } else {
        None
    }
}

impl LlmParams {
    /// The text chunk size in effect.
    pub fn resolved_text_chunk_size(&self) -> (n: usize)
        ensures
            n == text_chunk_size_of(*self),
    {
        match self.ai_text_chunk_size {
            Some(n) => n,
            None => if text_is(&self.llm_provider, "ollama") {
                1000
            } else {
                2000
            },
        }
    }

    /// The text chunk overlap in effect.
    pub fn resolved_text_chunk_overlap(&self) -> (n: usize)
        ensures
            n == text_chunk_overlap_of(*self),
    {
        match self.ai_text_chunk_overlap {
            Some(n) => n,
            None => if text_is(&self.llm_provider, "ollama") {
                100
            } else {
                200
            },
        }
    }

    /// Checks the settings, reporting the first rule broken.
    pub fn validate_runtime_settings(&self) -> (r: Result<(), SettingsError>)
        ensures
            match r {
                Ok(()) => runtime_settings_problem(*self) is None,
                Err(e) => runtime_settings_problem(*self) == Some(e.message@),
            },
    {
        let text_chunk_size = self.resolved_text_chunk_size();
        let text_chunk_overlap = self.resolved_text_chunk_overlap();
        if text_chunk_size == 0 {
            return Err(settings_error("AI_TEXT_CHUNK_SIZE must be greater than 0"));
        }
        if text_chunk_overlap >= text_chunk_size {
            return Err(
                settings_error("AI_TEXT_CHUNK_OVERLAP must be smaller than AI_TEXT_CHUNK_SIZE"),
            );
        }
        if self.ai_embed_chunk_size == 0 {
            return Err(settings_error("AI_EMBED_CHUNK_SIZE must be greater than 0"));
        }
        if self.ai_embed_chunk_overlap >= self.ai_embed_chunk_size {
            return Err(
                settings_error("AI_EMBED_CHUNK_OVERLAP must be smaller than AI_EMBED_CHUNK_SIZE"),
            );
        }
        if self.llm_max_in_flight_total == 0 {
            return Err(settings_error("LLM_MAX_IN_FLIGHT_TOTAL must be greater than 0"));
        }
        if self.llm_max_in_flight_background > self.llm_max_in_flight_total {
            return Err(
                settings_error(
                    "LLM_MAX_IN_FLIGHT_BACKGROUND must be less than or equal to LLM_MAX_IN_FLIGHT_TOTAL",
                ),
            );
        }
        if self.ai_text_claim_window_secs == 0 {
            return Err(settings_error("AI_TEXT_CLAIM_WINDOW_SECS must be greater than 0"));
        }
        if self.ai_embed_claim_window_secs == 0 {
            return Err(settings_error("AI_EMBED_CLAIM_WINDOW_SECS must be greater than 0"));
        }
        if self.llm_retry_base_delay_ms == 0 {
            return Err(settings_error("LLM_RETRY_BASE_DELAY_MS must be greater than 0"));
        }
        if self.llm_retry_max_delay_ms < self.llm_retry_base_delay_ms {
            return Err(
                settings_error(
                    "LLM_RETRY_MAX_DELAY_MS must be greater than or equal to LLM_RETRY_BASE_DELAY_MS",
                ),
            );
        }
        Ok(())
    }
}

/// The chunking and claiming settings of the AI background work. Claim
/// windows are in seconds.
#[derive(Debug, Clone)]
pub struct AiDaemonSettings {
    pub text_chunk_size: usize,
    pub text_chunk_overlap: usize,
    pub embed_chunk_size: usize,
    pub embed_chunk_overlap: usize,
    pub text_claim_window_secs: i64,
    pub embed_claim_window_secs: i64,
}

impl AiDaemonSettings {
    /// The settings of the background work, once the settings pass their
    /// checks.
    pub fn from_llm_params(params: &LlmParams) -> (r: Result<AiDaemonSettings, SettingsError>)
        requires
            params.ai_text_claim_window_secs <= MAX_CLAIM_WINDOW_SECS,
            params.ai_embed_claim_window_secs <= MAX_CLAIM_WINDOW_SECS,
        ensures
            match r {
                Ok(s) => runtime_settings_problem(*params) is None && s.text_chunk_size
                    == text_chunk_size_of(*params) && s.text_chunk_overlap == text_chunk_overlap_of(
                    *params,
                ) && s.embed_chunk_size == params.ai_embed_chunk_size && s.embed_chunk_overlap
                    == params.ai_embed_chunk_overlap && s.text_claim_window_secs
                    == params.ai_text_claim_window_secs && s.embed_claim_window_secs
                    == params.ai_embed_claim_window_secs,
                Err(e) => runtime_settings_problem(*params) == Some(e.message@),
            },
    {
        params.validate_runtime_settings()?;
        Ok(AiDaemonSettings {
            text_chunk_size: params.resolved_text_chunk_size(),
            text_chunk_overlap: params.resolved_text_chunk_overlap(),
            embed_chunk_size: params.ai_embed_chunk_size,
            embed_chunk_overlap: params.ai_embed_chunk_overlap,
            text_claim_window_secs: params.ai_text_claim_window_secs as i64,
            embed_claim_window_secs: params.ai_embed_claim_window_secs as i64,
        })
    }
}

/// `s` without its trailing `/` characters.
pub open spec fn without_trailing_slashes(s: Seq<char>) -> Seq<char>
    decreases s.len(),
{
    if s.len() > 0 && s.last() == '/' {
        without_trailing_slashes(s.drop_last())
    } else {
        s
    }
}

proof fn lemma_without_trailing_slashes(s: Seq<char>, b: int)
    requires
        0 <= b <= s.len(),
        forall|p: int| b <= p < s.len() ==> #[trigger] s[p] == '/',
        b == 0 || s[b - 1] != '/',
    ensures
        without_trailing_slashes(s) == s.subrange(0, b),
    decreases s.len() - b,
{
    if b < s.len() {
        let t = s.drop_last();
        assert forall|p: int| b <= p < t.len() implies #[trigger] t[p] == '/' by {
            assert(t[p] == s[p]);
        }
        if b > 0 {
            assert(t[b - 1] == s[b - 1]);
        }
        lemma_without_trailing_slashes(t, b);
        assert(t.subrange(0, b) =~= s.subrange(0, b));
    } else {
        assert(s.subrange(0, b) =~= s);
    }
}

/// The base URL of Ollama: the configured one without trailing slashes, or
/// the local default.
pub fn ollama_base_url(params: &LlmParams) -> (url: String)
    ensures
        url@ == match params.ollama_url {
            Some(u) => without_trailing_slashes(u@),
            None => DEFAULT_OLLAMA_URL@,
        },
{
    match &params.ollama_url {
        Some(u) => {
            let s = u.as_str();
            let mut b = s.unicode_len();
            while b > 0 && s.get_char(b - 1) == '/'
                invariant
                    0 <= b <= s@.len(),
                    forall|p: int| b <= p < s@.len() ==> #[trigger] s@[p] == '/',
                decreases b,
            {
                b = b - 1;
            }
            proof {
                lemma_without_trailing_slashes(s@, b as int);
            }
            s.substring_char(0, b).to_owned()
        },
        None => DEFAULT_OLLAMA_URL.to_owned(),
    }
}

/// Seconds an LLM request may take.
pub fn request_timeout_secs(params: &LlmParams) -> (secs: u64)
    ensures
        secs == match params.llm_request_timeout_secs {
            Some(s) => s,
            None => DEFAULT_REQUEST_TIMEOUT_SECS,
        },
{
    match params.llm_request_timeout_secs {
        Some(s) => s,
        None => DEFAULT_REQUEST_TIMEOUT_SECS,
    }
}

/// A text-completion provider with what is needed to reach it.
#[derive(Debug, Clone)]
pub enum TextProvider {
    Ollama { base_url: String },
    OpenAI { api_key: String },
    Anthropic { api_key: String },
    Gemini { api_key: String },
    OpenRouter { api_key: String },
}

/// An embedding provider with what is needed to reach it.
#[derive(Debug, Clone)]
pub enum EmbeddingProvider {
    Ollama { base_url: String },
    OpenAI { api_key: String },
    Gemini { api_key: String },
}

/// A text provider as plain values: its kind with its base URL or key.
pub enum TextProviderView {
    Ollama(Seq<char>),
    OpenAI(Seq<char>),
    Anthropic(Seq<char>),
    Gemini(Seq<char>),
    OpenRouter(Seq<char>),
}

impl View for TextProvider {
    type V = TextProviderView;

    open spec fn view(&self) -> TextProviderView {
        match self {
            TextProvider::Ollama { base_url } => TextProviderView::Ollama(base_url@),
            TextProvider::OpenAI { api_key } => TextProviderView::OpenAI(api_key@),
            TextProvider::Anthropic { api_key } => TextProviderView::Anthropic(api_key@),
            TextProvider::Gemini { api_key } => TextProviderView::Gemini(api_key@),
            TextProvider::OpenRouter { api_key } => TextProviderView::OpenRouter(api_key@),
        }
    }
}

/// An embedding provider as plain values.
pub enum EmbeddingProviderView {
    Ollama(Seq<char>),
    OpenAI(Seq<char>),
    Gemini(Seq<char>),
}

impl View for EmbeddingProvider {
    type V = EmbeddingProviderView;

    open spec fn view(&self) -> EmbeddingProviderView {
        match self {
            EmbeddingProvider::Ollama { base_url } => EmbeddingProviderView::Ollama(base_url@),
            EmbeddingProvider::OpenAI { api_key } => EmbeddingProviderView::OpenAI(api_key@),
            EmbeddingProvider::Gemini { api_key } => EmbeddingProviderView::Gemini(api_key@),
        }
    }
}

/// The text provider the settings ask for.
pub open spec fn text_provider_of(p: LlmParams) -> Result<TextProviderView, Seq<char>> {
    let name = p.llm_provider@;
    if name == "ollama"@ {
        Ok(TextProviderView::Ollama(ollama_base_url_of(p)))
    } else if name == "openai"@ {
        match p.openai_api_key {
            Some(k) => Ok(TextProviderView::OpenAI(k@)),
            None => Err("OPENAI_API_KEY required for openai provider"@),
        }
    } else if name == "anthropic"@ {
        match p.anthropic_api_key {
            Some(k) => Ok(TextProviderView::Anthropic(k@)),
            None => Err("ANTHROPIC_API_KEY required for anthropic provider"@),
        }
    } else if name == "gemini"@ {
        match p.gemini_api_key {
            Some(k) => Ok(TextProviderView::Gemini(k@)),
            None => Err("GEMINI_API_KEY required for gemini provider"@),
        }
    } else if name == "openrouter"@ {
        match p.openrouter_api_key {
            Some(k) => Ok(TextProviderView::OpenRouter(k@)),
            None => Err("OPENROUTER_API_KEY required for openrouter provider"@),
        }
    } else {
        Err("Unknown LLM_PROVIDER: "@ + name)
    }
}

/// The Ollama base URL the settings give, as text.
pub open spec fn ollama_base_url_of(p: LlmParams) -> Seq<char> {
    match p.ollama_url {
        Some(u) => without_trailing_slashes(u@),
        None => DEFAULT_OLLAMA_URL@,
    }
}

/// Chooses the text provider.
pub fn text_provider(params: &LlmParams) -> (r: Result<TextProvider, SettingsError>)
    ensures
        match r {
            Ok(got) => text_provider_of(*params) == Ok::<TextProviderView, Seq<char>>(got@),
            Err(e) => text_provider_of(*params) == Err::<TextProviderView, Seq<char>>(e.message@),
        },
{
    let name = &params.llm_provider;
    if text_is(name, "ollama") {
        Ok(TextProvider::Ollama { base_url: ollama_base_url(params) })
    } else if text_is(name, "openai") {
        match &params.openai_api_key {
            Some(k) => Ok(TextProvider::OpenAI { api_key: k.clone() }),
            None => Err(settings_error("OPENAI_API_KEY required for openai provider")),
        }
    } else if text_is(name, "anthropic") {
        match &params.anthropic_api_key {
            Some(k) => Ok(TextProvider::Anthropic { api_key: k.clone() }),
            None => Err(settings_error("ANTHROPIC_API_KEY required for anthropic provider")),
        }
    } else if text_is(name, "gemini") {
        match &params.gemini_api_key {
            Some(k) => Ok(TextProvider::Gemini { api_key: k.clone() }),
            None => Err(settings_error("GEMINI_API_KEY required for gemini provider")),
        }
    } else if text_is(name, "openrouter") {
        match &params.openrouter_api_key {
            Some(k) => Ok(TextProvider::OpenRouter { api_key: k.clone() }),
            None => Err(settings_error("OPENROUTER_API_KEY required for openrouter provider")),
        }
    } else {
        let mut message = "Unknown LLM_PROVIDER: ".to_owned();
        message.append(name.as_str());
        Err(SettingsError { message })
    }
}

/// The first key present among the two.
pub open spec fn first_key(a: Option<String>, b: Option<String>) -> Option<String> {
    match a {
        Some(k) => Some(k),
        None => b,
    }
}

/// The embedding provider named `name`.
pub open spec fn embedding_provider_of(name: Seq<char>, p: LlmParams) -> Result<EmbeddingProviderView, Seq<char>> {
    if name == "ollama"@ {
        Ok(EmbeddingProviderView::Ollama(ollama_base_url_of(p)))
    } else if name == "openai"@ {
        match first_key(p.llm_embedding_api_key, p.openai_api_key) {
            Some(k) => Ok(EmbeddingProviderView::OpenAI(k@)),
            None => Err("OPENAI_API_KEY or LLM_EMBEDDING_API_KEY required for openai embeddings"@),
        }
    } else if name == "gemini"@ {
        match first_key(p.llm_embedding_api_key, p.gemini_api_key) {
            Some(k) => Ok(EmbeddingProviderView::Gemini(k@)),
            None => Err("GEMINI_API_KEY or LLM_EMBEDDING_API_KEY required for gemini embeddings"@),
        }
    } else {
        Err("Provider '"@ + name
            + "' does not support embeddings. Use LLM_EMBEDDING_PROVIDER to select ollama, openai, or gemini for embeddings."@)
    }
}

fn first_key_of(a: &Option<String>, b: &Option<String>) -> (k: Option<String>)
    ensures
        k == first_key(*a, *b),
{
    match a {
        Some(k) => Some(k.clone()),
        None => match b {
            Some(k) => Some(k.clone()),
            None => None,
        },
    }
}

/// Chooses the embedding provider named `provider`.
pub fn embedding_provider(provider: &String, params: &LlmParams) -> (r: Result<EmbeddingProvider, SettingsError>)
    ensures
        match r {
            Ok(got) => embedding_provider_of(provider@, *params) == Ok::<
                EmbeddingProviderView,
                Seq<char>,
            >(got@),
            Err(e) => embedding_provider_of(provider@, *params) == Err::<
                EmbeddingProviderView,
                Seq<char>,
            >(e.message@),
        },
{
    if text_is(provider, "ollama") {
        Ok(EmbeddingProvider::Ollama { base_url: ollama_base_url(params) })
    } else if text_is(provider, "openai") {
        match first_key_of(&params.llm_embedding_api_key, &params.openai_api_key) {
            Some(k) => Ok(EmbeddingProvider::OpenAI { api_key: k }),
            None => Err(
                settings_error("OPENAI_API_KEY or LLM_EMBEDDING_API_KEY required for openai embeddings"),
            ),
        }
    } else if text_is(provider, "gemini") {
        match first_key_of(&params.llm_embedding_api_key, &params.gemini_api_key) {
            Some(k) => Ok(EmbeddingProvider::Gemini { api_key: k }),
            None => Err(
                settings_error("GEMINI_API_KEY or LLM_EMBEDDING_API_KEY required for gemini embeddings"),
            ),
        }
    } else {
        let mut message = "Provider '".to_owned();
        message.append(provider.as_str());
        message.append(
            "' does not support embeddings. Use LLM_EMBEDDING_PROVIDER to select ollama, openai, or gemini for embeddings.",
        );
        Err(SettingsError { message })
    }
}

/// Everything needed to build the language-model clients.
#[derive(Debug, Clone)]
pub struct LlmClientPlan {
    pub text_provider: TextProvider,
    pub text_model: String,
    pub embedding_provider: EmbeddingProvider,
    pub embedding_model: String,
    pub embedding_ndims: usize,
    pub request_timeout_secs: u64,
}

/// The language-model clients to build: none when no text model is set
/// (the AI features are then off); otherwise the providers, with the
/// embedding provider and model defaulting to the text ones.
pub fn build_llm_client(params: &LlmParams) -> (r: Result<Option<LlmClientPlan>, SettingsError>)
    ensures
        params.llm_text_model is None ==> r == Ok::<Option<LlmClientPlan>, SettingsError>(None),
        params.llm_text_model matches Some(model) ==> match r {
            Ok(Some(plan)) => {
                &&& plan.text_model == model
                &&& text_provider_of(*params) == Ok::<TextProviderView, Seq<char>>(
                    plan.text_provider@,
                )
                &&& embedding_provider_of(
                    match params.llm_embedding_provider {
                        Some(p) => p@,
                        None => params.llm_provider@,
                    },
                    *params,
                ) == Ok::<EmbeddingProviderView, Seq<char>>(plan.embedding_provider@)
                &&& plan.embedding_model == match params.llm_embedding_model {
                    Some(m) => m,
                    None => model,
                }
                &&& plan.embedding_ndims == match params.llm_embedding_dimension {
                    Some(n) => n,
                    None => DEFAULT_EMBEDDING_DIMENSION,
                }
                &&& plan.request_timeout_secs == match params.llm_request_timeout_secs {
                    Some(s) => s,
                    None => DEFAULT_REQUEST_TIMEOUT_SECS,
                }
            },
            Ok(None) => false,
            Err(e) => match text_provider_of(*params) {
                Err(m) => e.message@ == m,
                Ok(_) => embedding_provider_of(
                    match params.llm_embedding_provider {
                        Some(p) => p@,
                        None => params.llm_provider@,
                    },
                    *params,
                ) == Err::<EmbeddingProviderView, Seq<char>>(e.message@),
            },
        },
{
    let text_model = match &params.llm_text_model {
        Some(m) => m.clone(),
        None => return Ok(None),
    };
    let text_provider = text_provider(params)?;
    let emb_provider_name = match &params.llm_embedding_provider {
        Some(p) => p,
        None => &params.llm_provider,
    };
    let embedding_model = match &params.llm_embedding_model {
        Some(m) => m.clone(),
        None => text_model.clone(),
    };
    let embedding_ndims = match params.llm_embedding_dimension {
        Some(n) => n,
        None => DEFAULT_EMBEDDING_DIMENSION,
    };
    let embedding_provider = embedding_provider(emb_provider_name, params)?;
    Ok(
        Some(
            LlmClientPlan {
                text_provider,
                text_model,
                embedding_provider,
                embedding_model,
                embedding_ndims,
                request_timeout_secs: request_timeout_secs(params),
            },
        ),
    )
}

} // verus!
