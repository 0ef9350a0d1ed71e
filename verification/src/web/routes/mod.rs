pub mod auth;
pub mod block;
pub mod follow;
pub mod interest;
pub mod like;
pub mod message;
pub mod cart;
pub mod order;
pub mod shop_message;
pub mod post;
pub mod product;
pub mod shop;
pub mod group;
pub mod profile;
pub mod user;
