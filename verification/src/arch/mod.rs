//! Architecture backends. Exactly one is compiled in; the architecture
//! independent code reaches it through [`prelude`].

pub mod x86_64;

pub mod prelude;
