//! Marketing-funnel analytics: agent turns, CRM data, reports and the texts made of them.

use vstd::prelude::*;

pub mod agent;
pub mod brief;
pub mod config;
pub mod crm;
pub mod dates;
pub mod debug;
pub mod error;
pub mod fetch;
pub mod funnel;
pub mod json;
pub mod llm;
pub mod logo;
pub mod meta;
pub mod product;
pub mod provider;
pub mod rank;
pub mod records;
pub mod report;
pub mod schema;
pub mod secrets;
pub mod session;
pub mod sets;
pub mod snapshot;
pub mod strs;
pub mod table;
pub mod text;
pub mod tools;
pub mod window;

pub use config::{AppConfig, WorkspaceConfig};
pub use error::Error;
pub use logo::LOGO;
pub use meta::{list_ad_accounts, validate_token, AdAccount};
pub use provider::{ModelProviderInfo, WireApi};
pub use session::SessionMeta;
pub use snapshot::Snapshot;
pub use tools::{Completion, Tool, ToolCall};

verus! {

} // verus!
