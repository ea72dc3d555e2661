# crosvm plugin support, verified

The core of a virtual machine monitor's plugin support, and of its bit field macros, written in
Verus. Contracts in `requires` and `ensures` say what each function does; the public proof
functions whose names begin with `law_` say what follows for several of them together.

| Module | What it holds |
| --- | --- |
| `regions` | the address ranges that the plugin process has reserved |
| `vcpu` | a VCPU's side of the conversation with the plugin process |
| `messages` | the messages of that conversation |
| `kvm` | the calls to the hypervisor that requests lead to |
| `errno` | error numbers |
| `bits` | bits packed into bytes: the methods that every bit field has |
| `layout` | the widths and offsets of fields, and fields on top of `bits` |
| `tokens` | streams of Rust tokens, and code put together from text and tokens |
| `spelling` | the notation in which the fixed parts of code are written |
| `definition` | definitions of types as a macro gets them |
| `expansion` | the code that stands for the definition of a bit field |
| `expansion_laws` | what holds of that code for every definition |
| `texts` | the fixed texts of that code spell out tokens |
| `bitfield` | the generator of that code |
| `specifiers` | the marker types that name the width of a field |

`tests/` runs the library on concrete values. `app/` is the ordinary Rust around it: the socket,
the locks and the message encoding of a VCPU's connection, and the macros as the compiler calls
them. It takes the hypervisor's VCPU and the protocol buffers of the plugin protocol as traits.

What the library takes on trust are the functions marked `#[verifier::external_body]`, each with
the outside function that it stands for: error numbers of `libc`, tokens and token streams of
`proc_macro2`, parsing by `syn` and `quote`, and `str::to_lowercase`.
