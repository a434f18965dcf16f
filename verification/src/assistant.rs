//! The conversational assistant (RAG): "chat with the project".
//!
//! Flow: the most relevant passages come from the index ([`crate::index`]);
//! a prompt is built with them as numbered context; a language model
//! ([`Provider`]) answers; the passages become the citations. The exchange
//! with the model is a small state machine ([`ask`]): the caller performs the
//! HTTP request it asks for and hands back what came of it.
//!
//! Local-first: with Ollama no data leaves the machine; with the cloud API
//! only the retrieved snippets are sent, not the whole repository.

use vstd::prelude::*;
use crate::Error;
use crate::index::{Passage, PassageV, passages_view};
use crate::model::Project;
use crate::node::{Node, get, get_str, node_get, node_str};
use crate::text::{
    concat2, decimal, flatten, lemma_flatten_take, lemma_map_push, owned, str_eq, trim, trim_seq,
    u64_to_string, usize_to_string,
};
use crate::analyzers::git::{trim_end_matches_str, trim_suffix_all};
use crate::analyzers::kubernetes::get_in;

verus! {

broadcast use vstd::seq_lib::group_seq_properties;

/// How many passages to retrieve for the context.
pub const TOP_K: usize = 6;

/// The language-model provider chosen by the user.
#[allow(inconsistent_fields)]
pub enum Provider {
    /// The Anthropic messages API: `api_key` required; `model` required too,
    /// as no default model is built in.
    Claude { api_key: String, model: Option<String> },
    /// A local Ollama: `host` optional (default `http://localhost:11434`).
    Ollama { host: Option<String>, model: String },
}

/// A source cited by an answer.
pub struct Citation {
    pub title: String,
    pub location: String,
    pub kind: String,
}

/// The assistant's answer with its citations.
pub struct Answer {
    pub text: String,
    pub citations: Vec<Citation>,
}

/// The API a request speaks.
#[derive(Clone, Copy, Debug, PartialEq, Eq, Structural)]
pub enum Api {
    /// `POST /v1/messages`: `model`, `max_tokens`, `system` and one user
    /// message.
    Claude,
    /// `POST /api/chat`: `model`, `stream: false`, a system and a user
    /// message.
    Ollama,
}

/// An HTTP request to a model, to be sent as JSON.
pub struct ChatRequest {
    pub api: Api,
    pub url: String,
    pub headers: Vec<(String, String)>,
    pub timeout_secs: u64,
    pub model: String,
    pub max_tokens: u64,
    pub system: String,
    pub user: String,
}

/// What came of sending a request.
pub enum HttpOutcome {
    /// The request could not be sent or answered; the transport's message.
    Failed(String),
    /// An HTTP answer: its status and its body read as JSON (or the
    /// reader's message when it is not JSON).
    Response { status: u16, body: Result<Node, String> },
}

/// What the caller of [`ask`] hands back.
pub enum AskEvent {
    /// The question is asked.
    Start,
    /// The outcome of the request that [`ask`] asked for.
    Reply(HttpOutcome),
}

/// What [`ask`] decides.
pub enum AskStep {
    /// Send this request and come back with its outcome.
    Send(ChatRequest),
    /// The answer.
    Done(Answer),
    /// The question fails.
    Failed(Error),
}

// ---------------------------------------------------------------------------
// The prompt
// ---------------------------------------------------------------------------

/// The system prompt.
pub open spec fn system_prompt() -> Seq<char> {
    "Sei l'assistente tecnico di ArchMind. Rispondi a domande sul funzionamento di un progetto software usando ESCLUSIVAMENTE il contesto fornito (estratti di codice e metadati). Cita le fonti con la loro numerazione tra parentesi quadre, es. [1]. Se il contesto non basta, dillo chiaramente. Rispondi in italiano, in modo conciso e tecnico."@
}

pub const SYSTEM_PROMPT: &'static str = "Sei l'assistente tecnico di ArchMind. Rispondi a domande sul funzionamento di un progetto software usando ESCLUSIVAMENTE il contesto fornito (estratti di codice e metadati). Cita le fonti con la loro numerazione tra parentesi quadre, es. [1]. Se il contesto non basta, dillo chiaramente. Rispondi in italiano, in modo conciso e tecnico.";

/// One numbered passage of the context.
pub open spec fn context_entry(i: int, p: PassageV) -> Seq<char> {
    "["@ + decimal((i + 1) as nat) + "] ("@ + p.kind + ") "@ + p.location + "\n"@ + p.snippet
        + "\n\n"@
}

/// The numbered passages; a note when there are none.
pub open spec fn context_spec(ps: Seq<PassageV>) -> Seq<char> {
    if ps.len() == 0 {
        "(nessun contesto rilevante trovato nell'indice)\n"@
    } else {
        flatten(Seq::new(ps.len(), |i: int| context_entry(i, ps[i])))
    }
}

/// The user message: the project, the context and the question.
pub open spec fn user_prompt_spec(name: Seq<char>, ps: Seq<PassageV>, question: Seq<char>) -> Seq<char> {
    "Contesto del progetto \""@ + name + "\":\n\n"@ + context_spec(ps) + "\n---\nDomanda: "@ + question
}

/// Builds the user message (see [`user_prompt_spec`]).
pub fn user_prompt(name: &str, passages: &Vec<Passage>, question: &str) -> (r: String)
    ensures
        r@ == user_prompt_spec(name@, passages_view(passages@), question@),
{
    let ghost ps = passages_view(passages@);
    let mut context = String::new();
    let ghost per = Seq::new(ps.len(), |i: int| context_entry(i, ps[i]));
    for i in 0..passages.len()
        invariant
            ps == passages_view(passages@),
            per == Seq::new(ps.len(), |i: int| context_entry(i, ps[i])),
            context@ == flatten(per.take(i as int)),
    {
        proof {
            lemma_flatten_take(per, i as int);
        }
        let p = &passages[i];
        assert(ps[i as int] == p@);
        let ghost before = context@;
        context.append("[");
        context.append(usize_to_string(i + 1).as_str());
        context.append("] (");
        context.append(p.kind.as_str());
        context.append(") ");
        context.append(p.location.as_str());
        context.append("\n");
        context.append(p.snippet.as_str());
        context.append("\n\n");
        assert(context@ =~= before + per[i as int]);
    }
    assert(per.take(passages.len() as int) =~= per);
    if passages.len() == 0 {
        context.append("(nessun contesto rilevante trovato nell'indice)\n");
    }
    let mut s = owned("Contesto del progetto \"");
    s.append(name);
    s.append("\":\n\n");
    s.append(context.as_str());
    s.append("\n---\nDomanda: ");
    s.append(question);
    s
}

// ---------------------------------------------------------------------------
// Requests
// ---------------------------------------------------------------------------

pub open spec fn headers_view(v: Seq<(String, String)>) -> Seq<(Seq<char>, Seq<char>)> {
    v.map_values(|h: (String, String)| (h.0@, h.1@))
}

/// What a request is, as plain values.
pub struct RequestV {
    pub api: Api,
    pub url: Seq<char>,
    pub headers: Seq<(Seq<char>, Seq<char>)>,
    pub timeout_secs: u64,
    pub model: Seq<char>,
    pub max_tokens: u64,
    pub system: Seq<char>,
    pub user: Seq<char>,
}

impl View for ChatRequest {
    type V = RequestV;

    open spec fn view(&self) -> RequestV {
        RequestV {
            api: self.api,
            url: self.url@,
            headers: headers_view(self.headers@),
            timeout_secs: self.timeout_secs,
            model: self.model@,
            max_tokens: self.max_tokens,
            system: self.system@,
            user: self.user@,
        }
    }
}

/// The request for a provider, or the message of the error (`Error::Llm`)
/// when the provider is not usable: Anthropic needs a key and a model,
/// Ollama a model.
pub open spec fn request_spec(pr: Provider, system: Seq<char>, user: Seq<char>) -> Result<RequestV, Seq<char>> {
    match pr {
        Provider::Claude { api_key, model } => if trim_seq(api_key@).len() == 0 {
            Err("chiave API di Anthropic mancante"@)
        } else if model is None {
            Err("modello Anthropic non specificato"@)
        } else {
            Ok(
                RequestV {
                    api: Api::Claude,
                    url: "https://api.anthropic.com/v1/messages"@,
                    headers: seq![
                        ("x-api-key"@, api_key@),
                        ("anthropic-version"@, "2023-06-01"@),
                        ("content-type"@, "application/json"@),
                    ],
                    timeout_secs: 120,
                    model: model->0@,
                    max_tokens: 4096,
                    system,
                    user,
                },
            )
        },
        Provider::Ollama { host, model } => if trim_seq(model@).len() == 0 {
            Err("modello Ollama non specificato"@)
        } else {
            Ok(
                RequestV {
                    api: Api::Ollama,
                    url: trim_suffix_all(
                        match host {
                            Some(h) => h@,
                            None => "http://localhost:11434"@,
                        },
                        "/"@,
                    ) + "/api/chat"@,
                    headers: seq![("content-type"@, "application/json"@)],
                    timeout_secs: 300,
                    model: model@,
                    max_tokens: 0,
                    system,
                    user,
                },
            )
        },
    }
}

fn header(a: &str, b: &str) -> (r: (String, String))
    ensures
        r.0@ == a@,
        r.1@ == b@,
{
    (owned(a), owned(b))
}

/// The request for a provider (see [`request_spec`]).
pub fn request_for(provider: &Provider, system: &str, user: &str) -> (r: Result<ChatRequest, Error>)
    ensures
        match r {
            Ok(q) => request_spec(*provider, system@, user@) == Ok::<RequestV, Seq<char>>(q@),
            Err(e) => request_spec(*provider, system@, user@) matches Err(m) && e matches Error::Llm(x)
                && x@ == m,
        },
{
    match provider {
        Provider::Claude { api_key, model } => {
            if trim(api_key.as_str()).as_str().is_empty() {
                return Err(Error::Llm(owned("chiave API di Anthropic mancante")));
            }
            let mut headers: Vec<(String, String)> = Vec::new();
            headers.push(header("x-api-key", api_key.as_str()));
            headers.push(header("anthropic-version", "2023-06-01"));
            headers.push(header("content-type", "application/json"));
            let m = match model {
                Some(m) => m.clone(),
                None => {
                    return Err(Error::Llm(owned("modello Anthropic non specificato")));
                },
            };
            let q = ChatRequest {
                api: Api::Claude,
                url: owned("https://api.anthropic.com/v1/messages"),
                headers,
                timeout_secs: 120,
                model: m,
                max_tokens: 4096,
                system: owned(system),
                user: owned(user),
            };
            assert(q@.headers =~= seq![
                ("x-api-key"@, api_key@),
                ("anthropic-version"@, "2023-06-01"@),
                ("content-type"@, "application/json"@),
            ]);
            Ok(q)
        },
        Provider::Ollama { host, model } => {
            if trim(model.as_str()).as_str().is_empty() {
                return Err(Error::Llm(owned("modello Ollama non specificato")));
            }
            let h = match host {
                Some(h) => h.clone(),
                None => owned("http://localhost:11434"),
            };
            let base = trim_end_matches_str(h.as_str(), "/");
            let mut headers: Vec<(String, String)> = Vec::new();
            headers.push(header("content-type", "application/json"));
            let q = ChatRequest {
                api: Api::Ollama,
                url: concat2(base.as_str(), "/api/chat"),
                headers,
                timeout_secs: 300,
                model: model.clone(),
                max_tokens: 0,
                system: owned(system),
                user: owned(user),
            };
            assert(q@.headers =~= seq![("content-type"@, "application/json"@)]);
            Ok(q)
        },
    }
}

// ---------------------------------------------------------------------------
// Replies
// ---------------------------------------------------------------------------

/// A status of success (`2xx`).
pub open spec fn is_success(status: u16) -> bool {
    200 <= status <= 299
}

/// The text of a content block of type `text`.
pub open spec fn block_text(b: Node) -> Seq<char> {
    if node_str(node_get(b, "type"@)) == Some("text"@) {
        match node_str(node_get(b, "text"@)) {
            Some(t) => t,
            None => Seq::empty(),
        }
    } else {
        Seq::empty()
    }
}

/// The text of an Anthropic answer: all text blocks of `content`, joined.
pub open spec fn claude_text(v: Node) -> Seq<char> {
    match node_get(v, "content"@) {
        Some(Node::List(blocks)) => flatten(blocks@.map_values(|b: Node| block_text(b))),
        _ => Seq::empty(),
    }
}

/// The text of an Ollama answer: `message.content`.
pub open spec fn ollama_text(v: Node) -> Seq<char> {
    match node_str(get_in(node_get(v, "message"@), "content"@)) {
        Some(t) => t,
        None => Seq::empty(),
    }
}

/// The message of an error answer.
pub open spec fn error_message(api: Api, v: Node) -> Seq<char> {
    let m = match api {
        Api::Claude => node_str(get_in(node_get(v, "error"@), "message"@)),
        Api::Ollama => node_str(node_get(v, "error"@)),
    };
    match m {
        Some(s) => s,
        None => "errore sconosciuto"@,
    }
}

pub open spec fn api_name(api: Api) -> Seq<char> {
    match api {
        Api::Claude => "Anthropic"@,
        Api::Ollama => "Ollama"@,
    }
}

pub open spec fn send_failed_prefix(api: Api) -> Seq<char> {
    match api {
        Api::Claude => "richiesta a Anthropic fallita: "@,
        Api::Ollama => "richiesta a Ollama fallita (è in esecuzione?): "@,
    }
}

/// The text a model answered, or the message of the error (`Error::Llm`):
/// the request failed, the body is not JSON, the status is not a success,
/// or the text is blank.
pub open spec fn reply_spec(api: Api, o: HttpOutcome) -> Result<Seq<char>, Seq<char>> {
    match o {
        HttpOutcome::Failed(e) => Err(send_failed_prefix(api) + e@),
        HttpOutcome::Response { status, body } => match body {
            Err(e) => Err("risposta di "@ + api_name(api) + " non valida: "@ + e@),
            Ok(v) => if !is_success(status) {
                Err(api_name(api) + " HTTP "@ + decimal(status as nat) + ": "@ + error_message(api, v))
            } else {
                let t = match api {
                    Api::Claude => claude_text(v),
                    Api::Ollama => ollama_text(v),
                };
                if trim_seq(t).len() == 0 {
                    Err(api_name(api) + " ha restituito una risposta vuota"@)
                } else {
                    Ok(t)
                }
            },
        },
    }
}

fn text_of_claude(v: &Node) -> (r: String)
    ensures
        r@ == claude_text(*v),
{
    let mut out = String::new();
    match get(v, "content") {
        Some(Node::List(blocks)) => {
            let ghost per = blocks@.map_values(|b: Node| block_text(b));
            for i in 0..blocks.len()
                invariant
                    per == blocks@.map_values(|b: Node| block_text(b)),
                    out@ == flatten(per.take(i as int)),
            {
                proof {
                    lemma_flatten_take(per, i as int);
                }
                let b = &blocks[i];
                let ghost before = out@;
                let is_text = match get_str(b, "type") {
                    Some(t) => str_eq(t.as_str(), "text"),
                    None => false,
                };
                if is_text {
                    match get_str(b, "text") {
                        Some(t) => {
                            out.append(t.as_str());
                        },
                        None => {},
                    }
                }
                assert(out@ =~= before + per[i as int]);
            }
            assert(per.take(blocks.len() as int) =~= per);
        },
        _ => {},
    }
    out
}

fn text_of_ollama(v: &Node) -> (r: String)
    ensures
        r@ == ollama_text(*v),
{
    let m = match get(v, "message") {
        Some(m) => get_str(m, "content"),
        None => None,
    };
    match m {
        Some(t) => t,
        None => String::new(),
    }
}

fn message_of(api: Api, v: &Node) -> (r: String)
    ensures
        r@ == error_message(api, *v),
{
    let m = match api {
        Api::Claude => match get(v, "error") {
            Some(e) => get_str(e, "message"),
            None => None,
        },
        Api::Ollama => get_str(v, "error"),
    };
    match m {
        Some(s) => s,
        None => owned("errore sconosciuto"),
    }
}

fn name_of(api: Api) -> (r: &'static str)
    ensures
        r@ == api_name(api),
{
    match api {
        Api::Claude => "Anthropic",
        Api::Ollama => "Ollama",
    }
}

/// The text a model answered (see [`reply_spec`]).
pub fn reply_text(api: Api, outcome: HttpOutcome) -> (r: Result<String, Error>)
    ensures
        match r {
            Ok(t) => reply_spec(api, outcome) == Ok::<Seq<char>, Seq<char>>(t@),
            Err(e) => reply_spec(api, outcome) matches Err(m) && e matches Error::Llm(x) && x@ == m,
        },
{
    let name = name_of(api);
    match outcome {
        HttpOutcome::Failed(e) => {
            let prefix = match api {
                Api::Claude => "richiesta a Anthropic fallita: ",
                Api::Ollama => "richiesta a Ollama fallita (è in esecuzione?): ",
            };
            Err(Error::Llm(concat2(prefix, e.as_str())))
        },
        HttpOutcome::Response { status, body } => match body {
            Err(e) => {
                let mut m = owned("risposta di ");
                m.append(name);
                m.append(" non valida: ");
                m.append(e.as_str());
                Err(Error::Llm(m))
            },
            Ok(v) => {
                if !(200 <= status && status <= 299) {
                    let mut m = owned(name);
                    m.append(" HTTP ");
                    m.append(u64_to_string(status as u64).as_str());
                    m.append(": ");
                    m.append(message_of(api, &v).as_str());
                    return Err(Error::Llm(m));
                }
                let t = match api {
                    Api::Claude => text_of_claude(&v),
                    Api::Ollama => text_of_ollama(&v),
                };
                if trim(t.as_str()).as_str().is_empty() {
                    return Err(Error::Llm(concat2(name, " ha restituito una risposta vuota")));
                }
                Ok(t)
            },
        },
    }
}

// ---------------------------------------------------------------------------
// The exchange
// ---------------------------------------------------------------------------

pub struct CitationV {
    pub title: Seq<char>,
    pub location: Seq<char>,
    pub kind: Seq<char>,
}

impl View for Citation {
    type V = CitationV;

    open spec fn view(&self) -> CitationV {
        CitationV { title: self.title@, location: self.location@, kind: self.kind@ }
    }
}

pub open spec fn citation_of(p: PassageV) -> CitationV {
    CitationV { title: p.title, location: p.location, kind: p.kind }
}

pub open spec fn citations_view(v: Seq<Citation>) -> Seq<CitationV> {
    v.map_values(|c: Citation| c@)
}

pub open spec fn provider_api(pr: Provider) -> Api {
    match pr {
        Provider::Claude { .. } => Api::Claude,
        Provider::Ollama { .. } => Api::Ollama,
    }
}

/// The citations of an answer: one per passage, in order.
pub fn citations(passages: &Vec<Passage>) -> (r: Vec<Citation>)
    ensures
        citations_view(r@) == passages_view(passages@).map_values(|p: PassageV| citation_of(p)),
{
    let mut out: Vec<Citation> = Vec::new();
    for i in 0..passages.len()
        invariant
            citations_view(out@) == passages_view(passages@).take(i as int).map_values(
                |p: PassageV| citation_of(p),
            ),
    {
        let p = &passages[i];
        let ghost before = out@;
        out.push(Citation { title: p.title.clone(), location: p.location.clone(), kind: p.kind.clone() });
        proof {
            lemma_map_push(before, |c: Citation| c@, out@.last());
        }
        assert(passages_view(passages@).take(i + 1).map_values(|p: PassageV| citation_of(p)) =~= passages_view(passages@).take(i as int).map_values(|p: PassageV| citation_of(p)).push(citation_of(p@)));
    }
    assert(passages_view(passages@).take(passages.len() as int) =~= passages_view(passages@));
    out
}

/// Answers a question on the project, one step at a time. On `Start` it
/// asks to send the prompt (the project's name, the numbered passages and
/// the question) to the provider, or fails when the provider is not usable;
/// on `Reply` it gives the answer, citing every passage in order, or fails
/// as [`reply_spec`] says.
pub fn ask(project: &Project, question: &str, provider: &Provider, passages: &Vec<Passage>, event: AskEvent) -> (r: AskStep)
    ensures
        match event {
            AskEvent::Start => match request_spec(
                *provider,
                system_prompt(),
                user_prompt_spec(project@.name, passages_view(passages@), question@),
            ) {
                Ok(q) => r matches AskStep::Send(x) && x@ == q,
                Err(m) => r matches AskStep::Failed(e) && e matches Error::Llm(x) && x@ == m,
            },
            AskEvent::Reply(o) => match reply_spec(provider_api(*provider), o) {
                Ok(t) => r matches AskStep::Done(a) && a.text@ == t && citations_view(a.citations@)
                    == passages_view(passages@).map_values(|p: PassageV| citation_of(p)),
                Err(m) => r matches AskStep::Failed(e) && e matches Error::Llm(x) && x@ == m,
            },
        },
{
    match event {
        AskEvent::Start => {
            let user = user_prompt(project.name.as_str(), passages, question);
            proof {
                reveal_strlit("Sei l'assistente tecnico di ArchMind. Rispondi a domande sul funzionamento di un progetto software usando ESCLUSIVAMENTE il contesto fornito (estratti di codice e metadati). Cita le fonti con la loro numerazione tra parentesi quadre, es. [1]. Se il contesto non basta, dillo chiaramente. Rispondi in italiano, in modo conciso e tecnico.");
            }
            match request_for(provider, SYSTEM_PROMPT, user.as_str()) {
                Ok(q) => AskStep::Send(q),
                Err(e) => AskStep::Failed(e),
            }
        },
        AskEvent::Reply(o) => {
            let api = match provider {
                Provider::Claude { .. } => Api::Claude,
                Provider::Ollama { .. } => Api::Ollama,
            };
            match reply_text(api, o) {
                Ok(text) => AskStep::Done(Answer { text, citations: citations(passages) }),
                Err(e) => AskStep::Failed(e),
            }
        },
    }
}

/// The first step of answering a question, given what retrieval gave: a
/// retrieval error is the answer, unchanged, and nothing is sent; otherwise
/// the passages are kept for the reply and the step is that of [`ask`] on
/// `Start`.
pub fn start(project: &Project, question: &str, provider: &Provider, retrieved: Result<Vec<Passage>, Error>) -> (r: (
    Vec<Passage>,
    AskStep,
))
    ensures
        match retrieved {
            Err(e) => r.0@.len() == 0 && r.1 == AskStep::Failed(e),
            Ok(ps) => r.0@ == ps@ && match request_spec(
                *provider,
                system_prompt(),
                user_prompt_spec(project@.name, passages_view(ps@), question@),
            ) {
                Ok(q) => r.1 matches AskStep::Send(x) && x@ == q,
                Err(m) => r.1 matches AskStep::Failed(e) && e matches Error::Llm(x) && x@ == m,
            },
        },
{
    match retrieved {
        Err(e) => (Vec::new(), AskStep::Failed(e)),
        Ok(ps) => {
            let step = ask(project, question, provider, &ps, AskEvent::Start);
            (ps, step)
        },
    }
}

} // verus!
