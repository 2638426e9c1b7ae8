# metal-attention

Building blocks for running language models on a GPU: reading GGUF model files,
planning kernel launches, caching keys and values, and laying out the layers of
Llama, RWKV-7, Griffin, Jamba and Zamba models.

## Layout

- `src/` is the library. Everything in it is verified with Verus.
  - `text` — small string operations.
  - `float_order` — how floats that are held by their bit patterns compare.
  - `gguf` — the GGUF file format: parsing, building, quantization types,
    metadata, tensor names, architecture detection, half-width floats and the
    tokenizer.
  - `traits` — tensor views, layer schedules and the traits that layers have.
  - `kernels` — KV caches, data layouts, launch parameters, pipeline and buffer
    caches, frame slots, and one launch plan for each kernel.
  - `models` — seeded weights, layers, their states and the hybrid models.
- `app/` is what surrounds the library: memory-mapped files, the Metal device,
  and floating-point arithmetic.
- `tests/` runs the library.

## Conventions

Floats are held in `src/` by their bit patterns, as `u32`. Where the library
needs a result of floating-point arithmetic (a weight at a fraction of a range,
a sum, an unpacked tensor), it takes a function for it, and the contract says
what the function is applied to and where its results go.

A kernel launch is planned in `kernels::*_plans`: the plan names the pipeline,
its constants, the buffers, their sizes and the grid, or says why there is no
such launch. `app/` carries plans out. `kernels::plan_laws` states that every
plan is sound: what it binds exists, and nothing is read back from beyond the
end of a buffer.

## What is believed without proof

Two functions of the standard library, each behind a small wrapper:
`str::to_lowercase` (`text::lowercase`) and `std::str::from_utf8`
(`gguf::parser`).

## Laws

Beside the contracts, some public proof functions state what holds across
functions. Among them:

- a built file parses back to what it was built from
  (`gguf::roundtrip::built_file_parses_back`), and its tensors' data is given
  back (`built_tensor_data_is_given_back`);
- a file that is cut inside its header is refused
  (`gguf::parser::cut_file_is_refused`);
- decoding inverts encoding (`gguf::tokenizer::decode_inverts_encode`);
- pages never leak (`kernels::paged_cache::appending_conserves_pages`), and
  reads give back what was appended (`paged_reads_give_back_appends`);
- paged and dense attention see the same context
  (`kernels::layout::pages_give_back_dense_context`);
- one head in a group makes grouped-query attention plain multi-head attention
  (`one_head_per_group_is_unchanged`);
- the layers of a hybrid model alternate at the ratio of its kind
  (`traits::schedule::periodic_attention_count`).
