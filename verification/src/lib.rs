pub mod text;
pub mod command_match;
pub mod truncate;
pub mod tool;
pub mod jail;
pub mod exec;
pub mod bash;
pub mod path_utils;
pub mod read;
pub mod docs;
pub mod recall;
pub mod filesystem;
pub mod edit;
pub mod subagent_registry;
pub mod spawn;
pub mod subagent_monitor;
pub mod ensure_tool;
pub mod coding_job;
pub mod agent_cmd;
pub mod grep;
pub mod ls;
pub mod find;
pub mod registry;
pub mod cron;
pub mod message;
pub mod coding_delegation;
