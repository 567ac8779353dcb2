pub mod structures;
