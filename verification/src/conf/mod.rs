pub mod from_jsonconf;
pub mod jsonconf;
