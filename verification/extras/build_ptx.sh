#!/bin/sh
# Compile app/kernels.rs to PTX with cuda_builder.
#
# Usage: extras/build_ptx.sh [OUTPUT]     (default: kernels.ptx)
#
# Needs the CUDA toolkit, and cargo with the nightly toolchain and LLVM that the
# chosen version of cuda_builder asks for.
#
# The device has no std, so the kernels are built against the modules of src/ that
# they call and what those modules use. The crates are written to target/ptx:
#   aes_ctr   those modules, without the CPU backends (and so without rayon)
#   kernels   app/kernels.rs
#   builder   runs cuda_builder on kernels
set -eu

root=$(cd "$(dirname "$0")/.." && pwd)
out=${1:-kernels.ptx}
case $out in /*) ;; *) out=$(pwd)/$out ;; esac
work=$root/target/ptx
modules="bits block counter division field gpu lookup model table_entries tables"

rm -rf "$work"
mkdir -p "$work/aes_ctr/src" "$work/kernels/src" "$work/builder/src"

cat > "$work/aes_ctr/Cargo.toml" <<EOF
[package]
name = "aes_ctr"
version = "0.1.0"
edition = "2021"

[dependencies]
vstd = { version = "*", default-features = false }

[workspace]
EOF
echo '#![no_std]' > "$work/aes_ctr/src/lib.rs"
for m in $modules; do
    cp "$root/src/$m.rs" "$work/aes_ctr/src/"
    echo "pub mod $m;" >> "$work/aes_ctr/src/lib.rs"
done

cat > "$work/kernels/Cargo.toml" <<EOF
[package]
name = "kernels"
version = "0.1.0"
edition = "2021"

[lib]
crate-type = ["cdylib", "rlib"]

[dependencies]
aes_ctr = { path = "../aes_ctr" }
cuda_std = "0.2"

[workspace]
EOF
cp "$root/app/kernels.rs" "$work/kernels/src/lib.rs"

cat > "$work/builder/Cargo.toml" <<EOF
[package]
name = "builder"
version = "0.1.0"
edition = "2021"

[dependencies]
cuda_builder = "*"

[workspace]
EOF
cat > "$work/builder/src/main.rs" <<EOF
fn main() {
    cuda_builder::CudaBuilder::new("$work/kernels")
        .copy_to("$out")
        .build()
        .unwrap();
}
EOF

cargo run --manifest-path "$work/builder/Cargo.toml"
