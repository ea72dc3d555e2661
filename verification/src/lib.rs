//! Verified core of a virtual machine monitor's plugin support.
//!
//! Two parts live here. The first is what a VCPU does for a plugin process: which addresses
//! are reserved for the plugin ([`regions`]), how its requests are answered ([`vcpu`],
//! [`messages`], [`kvm`]) and with which error numbers ([`errno`]). The second is the bit
//! field support: a packed bit store with its field layout ([`bits`], [`layout`]), the code
//! generator that writes such stores for a struct definition ([`tokens`], [`spelling`],
//! [`definition`], [`expansion`], [`bitfield`]) and the one for the types that name their
//! widths ([`specifiers`]), with the proof that what they emit is always code ([`texts`],
//! [`expansion_laws`]) and that it says what it should ([`generated_laws`], [`token_laws`]).

pub mod bitfield;
pub mod bits;
pub mod definition;
pub mod errno;
pub mod expansion;
pub mod expansion_laws;
pub mod generated_laws;
pub mod kvm;
pub mod layout;
pub mod messages;
pub mod regions;
pub mod specifiers;
pub mod spelling;
pub mod texts;
pub mod token_laws;
pub mod tokens;
pub mod vcpu;
