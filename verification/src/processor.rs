pub mod add_liquidity;
pub mod add_sided_liquidity;
pub mod route;
pub mod freeze_pool;
pub mod initialize_pool;
pub mod remove_liquidity;
pub mod swap;
pub mod thaw_pool;
pub mod transfer_ownership;
pub mod transfer_taxman;
pub mod update_fee;
