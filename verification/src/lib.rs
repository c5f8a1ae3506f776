//! Authenticated, measured runtime policies.
//!
//! A *measured policy* is configuration supplied at runtime by an untrusted source
//! (typically the host) that must not be trusted until it has been authenticated,
//! and whose identity is measured into the guest's attestation so a relying party
//! can require a known-good policy.
//!
//! - [`framework`] is the domain-agnostic machinery: the two traits that a policy
//!   domain and a root of trust implement, and [`load`](framework::load).
//! - [`measurement`] is the digest of a policy and the verifier that trusts a
//!   policy by its digest.
//! - [`device_policy`] is the first domain: which host devices may be relayed into
//!   a confidential guest, bounded by a compiled-in capability ceiling. [`hwid`]
//!   describes a device.
//! - [`schema`], [`record`] and [`json`] are the JSON form of a device policy, from
//!   the policy down to the bytes. [`layout`] says how JSON values are laid out in
//!   bytes, and [`document`] what a whole document decodes to.
//! - [`message`] puts the errors into words.
//! - [`laws`] states what holds of all this together.

pub mod device_policy;
pub mod document;
pub mod framework;
pub mod hwid;
pub mod json;
pub mod laws;
pub mod layout;
pub mod measurement;
pub mod message;
pub mod record;
pub mod schema;
