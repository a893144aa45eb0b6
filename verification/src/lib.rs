//! A source-code emission engine: ordered sequences of formatting
//! directives are rendered into text, with indentation tracking and
//! whitespace collapsing, for a pluggable target language.

mod format_tokens;
mod formatter;
mod item;
mod java;
mod lang;
mod laws;
mod num;
mod render;
mod tokens;

pub use format_tokens::seqs_view;
pub use format_tokens::FormatTokens;
pub use formatter::FmtView;
pub use formatter::Formatter;
pub use formatter::RenderError;
pub use item::DirView;
pub use item::Item;
pub use item::ItemStr;
pub use java::modifier::Modifier;
pub use java::Java;
pub use java::JavaConfig;
pub use java::JavaType;
pub use lang::Lang;
pub use laws::indent_count;
pub use laws::lemma_depth_balance;
pub use laws::lemma_depth_netting;
pub use laws::lemma_line_start_suppression;
pub use laws::lemma_push_idempotent;
pub use laws::lemma_spacing_collapses;
pub use laws::unindent_count;
pub use lang::LangBox;
pub use num::dec_int;
pub use num::dec_nat;
pub use num::decimal_i128;
pub use num::decimal_u128;
pub use render::depth_ok;
pub use render::lemma_depth_ok_flat;
pub use render::render_seq;
pub use render::render_step;
pub use tokens::Tokens;
