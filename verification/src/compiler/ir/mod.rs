pub mod arch;
pub mod three_address_code;
