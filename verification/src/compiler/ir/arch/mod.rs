pub mod x64;
