//! The template-merge and upstream-routing engine of a Bitcoin mining proxy:
//! the signed wire formats of the job-provider and pool protocols, the
//! handlers that track what each upstream last said, the merge of a block
//! template with a pool's payout policy, and the routing of solutions.
pub mod buffer;
pub mod connection;
pub mod envelope;
pub mod eventual;
pub mod job_info;
pub mod job_provider;
pub mod keys;
pub mod merge;
pub mod payload;
pub mod pool;
pub mod pool_handler;
pub mod pool_laws;
pub mod router;
pub mod sample_pool;
pub mod sketch_laws;
pub mod target;
pub mod wire;
pub mod work;
pub mod work_laws;
