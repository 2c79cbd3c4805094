pub mod bandit;
pub mod metrics;
pub mod optimizer;
pub mod registry;
pub mod reward_normalizer;
pub mod stats;
pub mod window;
