//! A verified service marketplace and deferred-slashing engine.
//!
//! Providers publish immutable service blueprints; operators register
//! against them, backed by stake facts mirrored from an external
//! delegation provider; requesters ask a set of registered operators to
//! jointly run a service, which activates only on unanimous approval and
//! dies on a single veto. Misbehaviour is punished through a two-phase
//! slashing queue: accusations wait at a stable `(era, index)` address
//! through a dispute window before they touch stake. A call bridge lets an
//! EVM-style environment drive the same commands through binary payloads,
//! with a proved guarantee that every failure leaves the state untouched.
pub mod bridge;
pub mod codec;
pub mod command;
pub mod events;
pub mod laws;
pub mod ledger;
pub mod mock;
pub mod registry;
pub mod requests;
pub mod services;
pub mod slashing;
pub mod state;
pub mod types;
