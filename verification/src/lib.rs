//! bay0: a minimal PID 1 governor that creates, supervises and destroys
//! isolated execution environments ("rooms").
//!
//! The library holds the verified core: path construction, identifier and
//! vault-target validation, the control-line protocol, the room table, the
//! pid-file text codec, mount-teardown planning, the cgroup manager and the
//! room lifecycle. Process creation, signal-handler installation and the
//! supervisor loop live outside the library, in the surrounding binary.

pub mod cgroup;
pub mod control;
pub mod errs;
pub mod ident;
pub mod mounts;
pub mod paths;
pub mod policy;
pub mod pidtext;
pub mod room;
pub mod supervisor;
pub mod sys;
pub mod table;
pub mod text;
pub mod vault;
