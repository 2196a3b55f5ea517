//! Verified CSS cascade engine: filtering, cascade ordering, defaulting and
//! the token-level parts of computed-value resolution.

pub mod strutil;
pub mod registry;
pub mod text_props;
pub mod token;
pub mod style;
pub mod cascade;
pub mod defaulting;
pub mod custom_properties;
pub mod compute;
pub mod media;
pub mod calc;
pub mod shorthand;
pub mod style_attr;
pub mod filter;
