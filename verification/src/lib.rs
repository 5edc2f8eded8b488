//! AES-128 block encryption and counter mode.
//!
//! - [`model`]: AES-128 (FIPS-197) and counter mode (NIST SP 800-38A) as
//!   mathematics; every contract speaks of it.
//! - [`field`] and [`tables`]: GF(2^8) and the constant tables.
//! - [`block`] and [`counter`]: the key schedule, and one block by table lookup.
//! - [`scalar`]: a batch of blocks, portable.
//! - [`register`], [`aesni`] and [`vaes`]: counter mode on vector registers, computed
//!   in software, with several blocks in flight.
//! - [`parallel`]: counter mode on all cores.
//! - [`gpu`] and [`gpu_laws`]: what a GPU thread computes, the shape of a launch,
//!   and what the launch leaves.
//! - [`equations`]: what the operations compute, as equations between inputs and
//!   results.
//! - [`laws`]: what holds of the library as a whole.
//!
//! Blocks are four 32-bit words, big-endian within each word.

pub mod aesni;
pub mod bits;
pub mod block;
pub mod counter;
pub mod division;
pub mod equations;
pub mod field;
pub mod gpu;
pub mod gpu_laws;
pub mod laws;
pub mod lookup;
pub mod model;
pub mod parallel;
pub mod register;
pub mod scalar;
pub mod table_entries;
pub mod tables;
pub mod vaes;

pub use block::{encrypt_block, key_expansion, KAT_VECTORS};
pub use counter::{ctr_kat, encrypt_ctr_block, CtrKat, CTR_KAT};
pub use tables::{RCON, SBOX, SBOX_U32, T0, T1, T2, T3};
