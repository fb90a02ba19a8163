pub mod header;
pub mod name;
pub mod packet;
pub mod question;
pub mod reader;
pub mod record;
