pub mod bearer_token;
