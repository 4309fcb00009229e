pub mod lazy_static;
