//! ArchMind core: analysis of existing software projects.
//!
//! The flow is always the same: [`project::analyze`] takes the files of a
//! project folder, runs the [`analyzers`] in turn and fills a single
//! [`model::Project`] (the knowledge graph). Documentation ([`docs`]),
//! diagrams ([`diagrams`]) and searches ([`search`]) are produced from it.

pub mod text;
pub mod node;
pub mod model;
pub mod ordered;
pub mod db;
pub mod evolution;
pub mod analyzers;
pub mod project;
pub mod search;
pub mod diagrams;
pub mod docs;
pub mod index;
pub mod bm25;
pub mod assistant;
pub mod server;
pub mod store;
pub mod laws;

use vstd::prelude::*;
use crate::text::concat2;

verus! {

/// Errors of the library.
pub enum Error {
    /// An I/O failure, with its message.
    Io(String),
    /// A path that is not a usable project folder.
    BadPath(String),
    /// A document that could not be parsed.
    Parse { context: String, message: String },
    /// A diagram kind or format that is not supported.
    UnknownDiagram(String),
    /// A failure of the search index or of the snapshot store.
    Index(String),
    /// A failure of the language-model assistant.
    Llm(String),
    /// A failure of the live database connection.
    Db(String),
    /// A failure while exporting a document.
    Export(String),
}

/// The text of an error, as it is shown to users.
pub open spec fn error_text(e: Error) -> Seq<char> {
    match e {
        Error::Io(m) => "errore di I/O: "@ + m@,
        Error::BadPath(p) => "percorso non valido: "@ + p@,
        Error::Parse { context, message } => "parsing fallito ("@ + context@ + "): "@ + message@,
        Error::UnknownDiagram(k) => "tipo di diagramma non supportato: "@ + k@,
        Error::Index(m) => "errore dell'indice di ricerca: "@ + m@,
        Error::Llm(m) => "errore dell'assistente LLM: "@ + m@,
        Error::Db(m) => "errore del database: "@ + m@,
        Error::Export(m) => "esportazione fallita: "@ + m@,
    }
}

impl Error {
    /// The message of the error (see [`error_text`]).
    pub fn message(&self) -> (r: String)
        ensures
            r@ == error_text(*self),
    {
        match self {
            Error::Io(m) => concat2("errore di I/O: ", m.as_str()),
            Error::BadPath(p) => concat2("percorso non valido: ", p.as_str()),
            Error::Parse { context, message } => {
                let a = concat2("parsing fallito (", context.as_str());
                let b = concat2(a.as_str(), "): ");
                concat2(b.as_str(), message.as_str())
            },
            Error::UnknownDiagram(k) => concat2("tipo di diagramma non supportato: ", k.as_str()),
            Error::Index(m) => concat2("errore dell'indice di ricerca: ", m.as_str()),
            Error::Llm(m) => concat2("errore dell'assistente LLM: ", m.as_str()),
            Error::Db(m) => concat2("errore del database: ", m.as_str()),
            Error::Export(m) => concat2("esportazione fallita: ", m.as_str()),
        }
    }
}

} // verus!
