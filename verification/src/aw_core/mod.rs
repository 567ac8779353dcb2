pub mod analysis;
pub mod architecture;
pub mod elf_image;
pub mod instruction_helper;
pub mod shared_library;
pub mod translator;
