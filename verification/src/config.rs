pub mod ral_cfg;
