pub mod repo;
