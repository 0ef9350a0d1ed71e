pub mod db;
pub mod error;
pub mod external;
pub mod model;
pub mod seqs;
pub mod text;
pub mod web;
