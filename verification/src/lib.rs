//! The verified core of an SMTP/LMTP mail server: the inbound session
//! state machine, the outbound delivery decision engine, the session
//! configuration tree with its envelope-key discipline, the throttle
//! engine, and the MTA-STS policy parser.

pub mod config;
pub mod envelope;
pub mod ifblock;
pub mod inbound;
pub mod mta_sts;
pub mod outbound;
pub mod proto;
pub mod queue;
pub mod text;
pub mod throttle;
pub mod tls;
