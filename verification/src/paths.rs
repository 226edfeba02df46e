pub mod workspace;
