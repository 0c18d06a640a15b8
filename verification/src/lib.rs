//! The decisions of a node agent: what to run, when to restart it, and what to report.

pub mod backend;
pub mod backoff;
pub mod conditions;
pub mod config_bridge;
pub mod cri;
pub mod cri_backend;
pub mod csi_materializer;
pub mod env_ref;
pub mod error;
pub mod exec_channel;
pub mod exec_session;
pub mod image_source;
pub mod init_pass;
pub mod json;
pub mod keyed;
pub mod kubelet;
pub mod lifecycle;
pub mod native_backend;
pub mod node_lease;
pub mod number;
pub mod paths;
pub mod pod_env;
pub mod pod_spec;
pub mod pod_status;
pub mod pod_volumes;
pub mod prepare;
pub mod probes;
pub mod quantity;
pub mod report;
pub mod resource;
pub mod running;
pub mod scan;
pub mod services;
pub mod startup;
pub mod table;
pub mod text;
pub mod time;
