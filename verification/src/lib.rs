//! Verified core of a scripting-example explorer: an execution host around an
//! embedded Koto interpreter, a versioned repository of on-disk script
//! examples, and a harness for test suites declared inside the scripts.

pub mod bench;
pub mod builtins;
pub mod explorer;
pub mod harness;
pub mod host;
pub mod repo;
pub mod text;
pub mod vm;
pub mod watch;
