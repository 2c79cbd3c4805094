pub mod reward_tracker;
