pub mod adopt;
pub mod merge;
pub mod pr;
pub mod pr_create;
pub mod push;
pub mod split;
pub mod status;
pub mod sync;
pub mod sync_run;
