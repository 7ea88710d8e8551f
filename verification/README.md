# mohu

Element types, type promotion, strided memory layouts and typed byte
buffers for an N-dimensional array library, with their behaviour stated as
Verus contracts and proved.

## Layout

- `src/` — the verified library.
  - `dtype`, `iinfo`, `promote`, `compat`, `dlpack`: element types, their
    integer limits, promotion and casting rules, and their codes in other
    ecosystems (NumPy, the `struct` module, PEP 3118, ctypes, DLPack, Arrow).
  - `strides`, `shapevec`, `layout`: shapes, strides, index arithmetic,
    slicing and broadcasting of views.
  - `buffer`, `ops`: buffers of bytes seen through a layout — allocation,
    views, element access (raw and typed integers), copies, fills, indexed
    gather and scatter, element-wise integer arithmetic, negation and
    absolute value, reductions, and the position of the least and greatest
    element.
  - `cast`: the checks of scalar and slice casts between element types.
  - `error`, `context`, `test_utils`: the error type, its codes and kinds,
    collections of errors, and context chaining.
  - `random`: the PCG64-DXSM and Philox4x64 generators.
  - `alloc_stats`, `pool`: allocation counters, and the buffer pool's size
    classes, its ledger of cached blocks and each thread's cache, over
    handles that the caller allocates.
  - `text`: small string helpers used by the messages.
- `tests/` — tests of the library on concrete values.
- `app/` — what stands around the library: error messages (`Display`),
  serde support for `DType`, process-wide counters, the process-wide pool
  over heap blocks, and the computations whose results are floating-point
  numbers (among them the element conversions of casts).

Every buffer owns its bytes; a view (transpose, slice, broadcast, flip,
diagonal) carries a copy of them, so writing through one never changes
another.
