//! Executing an operation: which statements it takes, what is asked of the
//! schema first, and what the replies amount to. The statements are described
//! as plain data; rendering and running them is the backend's part.

pub mod batch;
pub mod course;
pub mod ddl;
pub mod effect;
pub mod figures;
pub mod guarded;
pub mod lookup;
pub mod ops;
pub mod paging;
pub mod prepare;
pub mod rows;
pub mod sequential;
pub mod statement;
pub mod upsert;
