[package]
name = "kid_agentic_coding"
version = "0.1.0"
edition = "2021"
publish = false

[dependencies]
agent-client-protocol = { version = "=5.0.0", features = ["process", "stdio", "unstable_mcp_over_acp"] }
agent-client-protocol-rmcp = { version = "=5.0.0", features = ["rmcp_3", "unstable_mcp_over_acp"] }
ansi-to-tui = "=8.0.1"
anyhow = "1"
clap = { version = "=4.6.7", features = ["derive"] }
clap-verbosity-flag = { version = "=3.0.4", features = ["tracing"] }
color-eyre = "=0.6.5"
derive_more = { version = "=2.1.1", features = ["full"] }
nix = { version = "=0.31.3", features = ["fs", "mount", "process", "sched", "user"] }
rand = "=0.10.3"
ratatui = "=0.30.2"
ratatui-textarea = "=0.9.4"
rmcp = { version = "=3.8.0", features = ["client", "macros", "server", "transport-child-process", "transport-io"] }
schemars = "=1.2.3"
serde = { version = "=1.0.229", features = ["derive"] }
serde_json = { version = "=1.0.154", features = ["preserve_order"] }
textwrap = "=0.16.4"
thiserror = "2"
tokio = { version = "=1.54.1", features = ["full"] }
tracing = "0.1"
tracing-subscriber = { version = "=0.3.23", features = ["chrono", "env-filter"] }
tui-markdown = "=0.3.13"
