# spv_block

Generation of the blocks of a SPIR-V function from a shader intermediate
representation, verified with Verus.

`BlockContext` holds a module and a function under construction.
`BlockContext::write_block` turns a list of statements into blocks;
`BlockContext::cache_expression_value` emits the value of one expression, and
`BlockContext::write_expression_pointer` the pointer that a chain of accesses
comes down to.

## How it is specified

What a generating function does is a spec function from the state before to the
state after and the result (`run::Run`). The state is the module, the blocks and
the cached values, as sequences, maps and sets (`context::Code`,
`context::State`). The contract of each executable function says that it does
exactly that, and changes nothing else.

| module | what it holds |
| --- | --- |
| `ir` | the shader |
| `words`, `instruction` | the SPIR-V vocabulary, taken from the `spirv` crate |
| `types`, `writer` | ids, types, constants and capabilities of the module |
| `function`, `context` | the function, its blocks, and the cached values |
| `operators` | which opcode computes which operator |
| `index`, `pointer` | bounds checks, and chains of accesses |
| `image`, `expression` | the values of expressions |
| `entry_point`, `statement`, `block` | statements and control flow |

## What is proved of it as a whole

`laws` and `chains` state what holds of the generated code: nothing that was
there is taken back, every id is defined once, every block is complete, every
jump leads somewhere, chains of accesses are gathered into one instruction, and
so on. `growth`, `steps` and `flow` hold the proofs that lead up to it.

What is taken on trust is in `words`: the variants of five enumerations of the
`spirv` crate, and the bits of three of its operand masks.
