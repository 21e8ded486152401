//! Verified state machines of the Dina network contracts.
pub mod keymap;
pub mod drc1_token;
pub mod math;
pub mod drc10_royalties;
pub mod addr;
pub mod drc101_agent_wallet;
pub mod drc103_service_agreement;
pub mod bridge_across;
pub mod bridge_usdc;
pub mod defi_vault;
pub mod defi_lending;
pub mod dina_stablecoin_factory;
pub mod dina_yield_vault;
pub mod dina_fx_swap;
pub mod dex_swap;
pub mod dina_currency_registry;
pub mod bridge_stargate;
pub mod bridge_layerzero;
pub mod hashing;
pub mod bridge_wormhole;
pub mod signatures;
pub mod bridge_cctp;
pub mod bridge_axelar;
pub mod bytes;
pub mod bridge_base;
pub mod drc102_capability;
pub mod dev_events;
pub mod text;
pub mod dev_factory;
pub mod dev_timelock;
pub mod dev_multicall;
pub mod usdc;
pub mod cli_config;
pub mod wallet;
