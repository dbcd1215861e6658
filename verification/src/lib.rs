//! Decision logic of a batch scheduler that runs its jobs on Kubernetes and on
//! cgroup-isolated hosts: execution identity and provenance, pod construction,
//! completion delivery, accounting, plugin hosting and resource isolation.
//!
//! Every function here is a function of plain values. Clients that talk to a
//! cluster, a database or a file system call these functions and carry out what
//! they decide.

pub mod accounts;
pub mod cgroup;
pub mod cleanup;
pub mod clock;
pub mod completion;
pub mod control;
pub mod crd;
pub mod desired;
pub mod envvars;
pub mod execution_identity;
pub mod gpu;
pub mod heartbeat;
pub mod job_state;
pub mod k8s;
pub mod launch;
pub mod ledger;
pub mod mounts;
pub mod naming;
pub mod notifier;
pub mod plain;
pub mod plainmap;
pub mod pmix_dispatch;
pub mod provenance;
pub mod quantity;
pub mod queries;
pub mod reconcile;
pub mod sessions;
pub mod spank;
pub mod status;
pub mod strmap;
pub mod submission;
pub mod terminate;
pub mod text;
pub mod uuids;
pub mod wire;
pub mod words;

