# vrp_parser

Reading Vehicle Routing Problem instances from VRPLib and Solomon files,
with the reading logic proved correct by Verus.

## Layout

- `src/` — the library, every function of it verified:
  - `text.rs`, `numeric.rs`: whitespace, words, and the number grammars
    (`u64`, `usize`, and the texts that `f64::from_str` accepts, kept as
    `FloatLiteral`s);
  - `vrplib/`: the VRPLib token types, the line lexer, the section parser
    (generic over the number type the file is read with) and its checks,
    and the readers from the lines of a file;
  - `solomon/`: the Solomon lexer, parser and reader;
  - `instance.rs`, `matrix.rs`, `convert.rs`: the instance builder, the
    expansion of lower-triangular matrices, and the conversion of literals
    into values.
- `app/` — the file-based loaders: reading files, the floating-point
  conversions and distances, and error messages.
- `tests/` — tests of the library on concrete inputs.

Numbers that are floating point in an instance (coordinates, Solomon values)
are kept in the library as their checked texts; the loaders in `app/` turn
them into `f64` values and hand the library the functions that compute with
them (distances, node numbers), whose results the library's contracts speak
of.
