# phoenix_sema

The semantic analysis of the Phoenix language as a library verified with Verus.
It takes a parsed program and says what its names refer to, which type each
expression has, and what is wrong with it.

- `resolved::check` analyses a single file, `resolved::check_modules` a program
  of several modules. Both return an `Analysis`: the findings, the endpoints and
  a `ResolvedModule`, in which functions, methods, structs, enums and traits
  stand under dense ids.
- `ast` is the input: a program as a tree. `span` holds places and findings.

## How it is specified

Each check is given by a spec function from the tables (`EnvV`), the state
(`StateV`) and a piece of the program to the state after it and the type that
results. The state holds the findings with their exact texts, so a contract
says which finding comes when. The executable function beside it is proved to
compute exactly that.

What holds of the whole stands in proof functions whose names begin with
`law_`:

| Module | What its laws say |
| --- | --- |
| `table` | what is stored is found again, and nothing else changes |
| `type_laws` | substitution, inference and which types fit each other |
| `spelling_laws` | the canonical spelling tells types apart |
| `pin_laws` | pinning fills gaps in recorded types and does nothing else |
| `capture_laws`, `walk` | what lambdas capture, and where walks stop |
| `routes`, `endpoint_laws` | route signatures, versions, the fields of bodies; endpoints that are kept are valid and differ |
| `object_safety` | which traits can be used as `dyn` |
| `privacy`, `register` | searches through types and aliases end |
| `scope_laws` | a module can name its own declarations, public ones of others, and the builtins |
| `slots` | the first declaration of a name stays |
| `signature_laws` | every parameter has a type and a name |
| `product` | ids are dense, and everything is found under its name |
| `program_laws` | a file is checked like a program of one module |
| `steady_bodies`, `steady_program` | scopes are left again, findings are never lost, what is recorded for later phases is complete |
| `valid_laws` | what a program without findings has: all its endpoints kept, names declared once, matches that are exhaustive |

`tests/` holds programs as source text, with a small parser of their own.
