pub mod adc;
pub mod base64;
pub mod config;
pub mod connections;
pub mod driver;
pub mod external;
pub mod form;
pub mod http;
pub mod json;
pub mod metadata;
pub mod number;
pub mod oauth;
pub mod order;
pub mod query;
pub mod redaction;
pub mod run;
pub mod signing;
pub mod text;
pub mod token;
