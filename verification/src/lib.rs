//! Bridge between a dynamically typed host application and a SQL database:
//! type-affinity resolution, text encoding for host strings, value encoding,
//! schema reflection and the streaming-cursor protocol.

pub mod cursor;
pub mod db;
pub mod registry;
pub mod schema;
pub mod sqltype;
pub mod str;
pub mod typeref;
pub mod value;
