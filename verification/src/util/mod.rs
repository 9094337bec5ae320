pub mod codec;
pub mod consts;
pub mod db;
pub mod strings;
pub mod topic;
