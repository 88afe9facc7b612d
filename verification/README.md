# workshop_macros

The logic of three procedural macros, verified with Verus:

- `seq!` (`src/seq_macro/`): `N in a..b { body }` repeats the body for each value of the range
  with `N` replaced by the value; later forms paste `x~N` into identifiers and repeat only the
  sections written `#( ... )*`.
- `#[derive(Builder)]` (`src/builder/`): a builder struct with a setter per field, `Option`
  fields left optional, and fields marked `#[builder(each = "name")]` filled one element at a
  time.
- `enum_build!` (`src/enum_builder/`): from trait declarations, an enum with one variant per
  method holding the method's argument types, generic over all the methods' type parameters.

Each macro also has an entry point on its raw input tokens (`seq`, `derive_tokens`,
`enum_build_tokens`); the parses that syn does for the derives and for `enum_build!` are called
from `src/syntax.rs`, whose contracts name syn's results in the model.

Token streams are modelled by `token::TokenTree` (groups, identifiers, punctuation, literals);
each module states its expansion as spec functions over that model and proves the executable
code against them. `laws.rs` in each module holds the properties that relate the functions.

`app/` is the unverified front end: it converts proc-macro2 token streams to and from the
model, turns errors into `compile_error!` at the reported positions, and expands an input read
from a file.
