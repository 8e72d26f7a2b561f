//! Reads CPUID and MSR values out of AIDA64 CPUID dumps and answers
//! questions about CPU features from them.

pub mod aida_line;
pub mod aida_parse;
pub mod cpu_information;
pub mod cpuid_table;
pub mod features;
pub mod grouping;
pub mod hex;
pub mod msr_features;
pub mod scan;
pub mod text;
