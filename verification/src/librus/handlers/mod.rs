pub mod notices;
pub mod users;
