//! Trust, enablement and naming policy for Codewhale plugin bundles and
//! Codewhale-owned xAI OAuth credential files.

pub mod text;
pub mod types;
pub mod state;
pub mod registry;
pub mod credentials;
pub mod words;
pub mod commands;
