//! Client-side query, pagination and resolution engine for REST services
//! that share a common listing idiom: marker-based pagination, query-string
//! filters and an optional result cap.
//!
//! The crate is organised around a small set of components:
//!
//! * [`query::Query`] — the wire-level request shape: an ordered set of
//!   filter key/value pairs with last-write-wins semantics.
//! * [`cursor::PaginationCursor`] — drives repeated list requests through a
//!   continuation marker until exhaustion or a caller-supplied cap.
//! * [`pages::Listing`] — the reference model of a marker-paginated list
//!   endpoint, against which the pagination laws are stated and proved.
//! * [`finders`] — the per-resource query builders with their terminal
//!   operations, `all` (exhaustive) and `fetch` (one bounded page).
//! * [`loader`] — resolves an identifier-or-name into exactly one resource,
//!   failing loudly when the name is ambiguous.
//! * [`storage`] — the object-storage resource family (containers and
//!   objects), whose listing marker is the resource name.
//! * [`sort`] — client-side multi-key sorting for resource families without
//!   server-side sort support.

pub mod cursor;
pub mod error;
pub mod finders;
pub mod loader;
pub mod pages;
pub mod query;
pub mod sort;
pub mod storage;
