//! Core logic of the Celestial bootstrapper: a chunked, digest-checked
//! downloader, plus the decisions behind locating a JDK and launching Gradle.
pub mod config;
pub mod error;
pub mod git;
pub mod gradle;
pub mod hashing;
pub mod java;
pub mod number;
pub mod reassembly;
pub mod retry;
pub mod transfer;
pub mod plan;
