# larql-compute

Host-side logic of a CUDA compute backend for quantised language models, verified with
Verus, and the runtime around it.

- `src/` is the library. It decides what the device does: which kernel runs a projection,
  how a token, a prompt or a speculative run goes through the layers, when a pass is
  recorded and replayed, what is kept in which cache, and with which shape each kernel is
  launched. It never touches the device. Plans are sequences of operations on named
  buffers; calls that alternate with the device are state machines that take outcomes.
- `app/` performs what the library plans: the CUDA driver, cuBLAS, the environment, the
  cache directory, and arithmetic on floats.
- `extras/kernels/` holds the CUDA sources that `app/` compiles at run time.
- `tests/` runs the library on concrete values.

Weights in the model's own packed formats are expanded by the embedding program
(`WeightExpander`), as are packed keys and values (`KvPacker`).
