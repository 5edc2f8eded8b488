# aes_ctr

AES-128 block encryption and counter mode, verified with Verus.

Every executable function has a contract over one mathematical model of AES-128
(FIPS-197) and of counter mode (NIST SP 800-38A), in `src/model.rs`: GF(2^8), the
S-box, the rounds, the key schedule, and `ct[i] = pt[i] ^ E(rk, counter0 + i)` with
the low 32-bit counter word advanced modulo 2^32. All kernels are proved to compute
the same function, whatever their interleave width and number of threads.

| Module | Content |
|--------|---------|
| `model` | The model. |
| `field`, `tables`, `table_entries` | GF(2^8) and its laws; the constant tables, with a proof of every entry. |
| `block`, `lookup`, `counter` | Key schedule; one block by T-table lookup, in ECB and counter mode. |
| `scalar` | A batch of blocks, portable. |
| `register` | 128-, 256- and 512-bit vector registers with the AES round operations, as byte arrays in software. |
| `aesni`, `vaes` | Counter mode on those registers, several blocks in flight, in the shape of AES-NI and VAES code; no CPU feature is used or tested. |
| `parallel` | The split of a message across the cores, with rayon. |
| `gpu`, `gpu_laws` | What one GPU thread computes, the shape of a launch, and what the threads of a launch leave, in any order. |
| `division` | Division that rounds up. |
| `laws` | The S-box is a permutation, the cipher is injective, counter mode undoes itself, the kernels agree. |

Two functions are trusted: `parallel::worker_threads` and `parallel::for_each_chunk`,
which call rayon. Their doc comments say what is taken on trust.

`app/` is the program around the library: the CUDA host code and the kernels that
hand a thread index to `gpu`. It needs an NVIDIA GPU and the CUDA toolkit, and reads
the kernels as PTX from `kernels.ptx` in the working directory.
`extras/build_ptx.sh` makes that file: it compiles `app/kernels.rs`
for `nvptx64` with `cuda_builder`, against the modules of `src/` that the device
code uses. Run it again whenever `app/kernels.rs` or one of those modules changes.
