//! Documentation generated from the project model: Markdown
//! ([`markdown`]), a Wiki flavour with embedded diagrams ([`wiki`]), HTML
//! ([`html`]) and the layout of a PDF ([`pdf`]).

pub mod html;
pub mod markdown;
pub mod pdf;
pub mod wiki;
