pub mod elf64;
