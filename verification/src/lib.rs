//! Lazy expressions over dynamically typed columns.
//!
//! A [`Context`] binds columns to positions and names, an [`Expr`] is a chain
//! of nodes evaluated against it, and the result is materialised for the
//! [`Backend`] asked for at evaluation time. Columns are scalars, flat
//! sequences, n-dimensional arrays, lazy iterators or columns of a
//! dataframe; every element carries the tag of its element type and every
//! container keeps the tags of its elements equal to its own.
//!
//! What an evaluation means is written down as functions on the content of
//! the data (`sem_eval` and its parts). An evaluation that selects no lazy
//! iterator gives exactly that. A lazy iterator can be run by its one owner
//! only and the context holds its columns, so an evaluation that selects
//! one may also fail with [`Error::SharedOwnership`].
pub mod array;
pub mod backend;
mod bridge;
pub mod cast;
pub mod context;
pub mod data;
pub mod dtype;
pub mod element;
pub mod error;
pub mod expr;
pub mod join;
pub mod kernels;
pub mod lanes;
pub mod laws;
pub mod ops;
pub mod payload;
pub mod scalar;
pub mod series;
pub mod trust_iter;
pub mod vec;

pub use array::ArbArray;
pub use array::DynArray;
pub use backend::Backend;
pub use cast::NumLike;
pub use cast::TransmuteDtype;
pub use cast::TrustIterCast;
pub use context::ColMap;
pub use context::Context;
pub use context::Env;
pub use context::Symbol;
pub use data::Content;
pub use data::Data;
pub use data::Kind;
pub use data::sole;
pub use dtype::DataType;
pub use dtype::GetDtype;
pub use element::Dtype;
pub use error::Error;
pub use expr::BaseFunc;
pub use expr::BaseNode;
pub use expr::CtxFunc;
pub use expr::CtxNode;
pub use expr::Expr;
pub use expr::LitNode;
pub use expr::Node;
pub use expr::Rolling;
pub use expr::SelectNode;
pub use expr::lit;
pub use expr::s;
pub use join::concat_iter;
pub use kernels::IntElem;
pub use payload::Payload;
pub use scalar::Scalar;
pub use scalar::TimeDelta;
pub use scalar::Value;
pub use series::Series;
pub use trust_iter::DynTrustIter;
pub use vec::DynVec;
