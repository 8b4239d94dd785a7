//! Verified planning, validation, and inspection core of the Bootart installer.

pub mod adapter;
pub mod digest;
pub mod codec;
pub mod error;
pub mod generator;
pub mod text;
pub mod text_facts;
pub mod elf;
pub mod paths;
pub mod root;
pub mod selection;
pub mod space;
pub mod state;
pub mod journal;
pub mod manifest;
pub mod activation;
pub mod operations;
pub mod ordering;
pub mod plan;
pub mod transaction;
pub mod describe;
pub mod directories;
pub mod records;
pub mod install_plan;
pub mod plan_identity;
pub mod plan_render;
pub mod install_engine;
pub mod installer;
pub mod status;
pub mod safety;
pub mod render;
pub mod embedded;
pub mod archive;
pub mod newc;
pub mod dracut_systemd;
pub mod initramfs_tools_systemd;
pub mod mkinitcpio_systemd;
pub mod mkinitcpio_laws;
pub mod mkinitfs_init;
pub mod mkinitfs_openrc;
pub mod mkinitfs_laws;
pub mod boot_deploy_init;
pub mod mkinitfs_boot_deploy_openrc;
