pub mod auth;
pub mod block;
pub mod cart;
pub mod follow;
pub mod group;
pub mod group_post;
pub mod interest;
pub mod like;
pub mod message;
pub mod order;
pub mod post;
pub mod product;
pub mod profile;
pub mod shop;
pub mod shop_message;
pub mod user;
