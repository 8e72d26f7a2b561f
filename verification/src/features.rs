//! CPU features as boolean expressions over bits of CPUID results and MSR
//! values, and their evaluation against a source of such values.
//!
//! An expression evaluates to true, false or unknown. A CPUID leaf that the
//! source does not know counts as all zero, as hardware reports a leaf that it
//! does not support: a test of one of its bits is false. An MSR that the
//! source does not know makes the test of one of its bits unknown, and unknown
//! spreads: a conjunction, disjunction or negation with an unknown operand is
//! unknown, whatever the other operand is.

use vstd::prelude::*;
use vstd::arithmetic::power2::pow2;
use crate::cpu_information::lookup;
use crate::cpu_information::CpuInformation;
use crate::cpu_information::CpuidQuery;
use crate::cpu_information::CpuidRegister;
use crate::cpu_information::CpuidResult;

verus! {

/// The number of a bit in a register, counted from the least significant.
pub type Bit = u8;

/// A boolean expression over bits of CPUID results and MSR values.
#[derive(Debug, PartialEq, Eq)]
pub enum BoolExpression {
    /// The bit of this number is set in this register of the result of this
    /// query. The number is below 32.
    CpuidBitSet(CpuidQuery, CpuidRegister, Bit),
    /// The bit of this number is set in the MSR of this index. The number is
    /// below 64.
    MsrBitSet(u32, Bit),
    And(Box<BoolExpression>, Box<BoolExpression>),
    Or(Box<BoolExpression>, Box<BoolExpression>),
    Not(Box<BoolExpression>),
}

/// Whether bit `bit` of `value` is set: whether `value` divided by 2 to the
/// `bit` is odd.
pub open spec fn bit_is_set(value: nat, bit: nat) -> bool {
    (value / pow2(bit)) % 2 == 1
}

/// Conjunction of two tri-state values: unknown where either is.
pub open spec fn and_values(a: Option<bool>, b: Option<bool>) -> Option<bool> {
    match (a, b) {
        (Some(x), Some(y)) => Some(x && y),
        _ => None,
    }
}

/// Disjunction of two tri-state values: unknown where either is.
pub open spec fn or_values(a: Option<bool>, b: Option<bool>) -> Option<bool> {
    match (a, b) {
        (Some(x), Some(y)) => Some(x || y),
        _ => None,
    }
}

/// Negation of a tri-state value: unknown stays unknown.
pub open spec fn not_value(a: Option<bool>) -> Option<bool> {
    match a {
        Some(x) => Some(!x),
        None => None,
    }
}

impl BoolExpression {
    /// Whether every bit number in the expression lies in its register: below
    /// 32 for a CPUID register, below 64 for an MSR.
    pub open spec fn well_formed(self) -> bool
        decreases self,
    {
        match self {
            BoolExpression::CpuidBitSet(_, _, bit) => bit < 32,
            BoolExpression::MsrBitSet(_, bit) => bit < 64,
            BoolExpression::And(a, b) => a.well_formed() && b.well_formed(),
            BoolExpression::Or(a, b) => a.well_formed() && b.well_formed(),
            BoolExpression::Not(a) => a.well_formed(),
        }
    }

    /// The value of the expression where the CPUID results are `cpuid` and
    /// the MSR values are `msrs`. `None` is unknown.
    pub open spec fn value(
        self,
        cpuid: Map<CpuidQuery, CpuidResult>,
        msrs: Map<u32, u64>,
    ) -> Option<bool>
        decreases self,
    {
        match self {
            BoolExpression::CpuidBitSet(query, reg, bit) => match lookup(cpuid, query) {
                Some(r) => Some(bit_is_set(r.register(reg) as nat, bit as nat)),
                None => Some(false),
            },
            BoolExpression::MsrBitSet(index, bit) => match lookup(msrs, index) {
                Some(v) => Some(bit_is_set(v as nat, bit as nat)),
                None => None,
            },
            BoolExpression::And(a, b) => and_values(a.value(cpuid, msrs), b.value(cpuid, msrs)),
            BoolExpression::Or(a, b) => or_values(a.value(cpuid, msrs), b.value(cpuid, msrs)),
            BoolExpression::Not(a) => not_value(a.value(cpuid, msrs)),
        }
    }

    /// Tests whether the expression is well formed.
    pub fn is_well_formed(&self) -> (r: bool)
        ensures
            r == self.well_formed(),
        decreases self,
    {
        match self {
            BoolExpression::CpuidBitSet(_, _, bit) => *bit < 32,
            BoolExpression::MsrBitSet(_, bit) => *bit < 64,
            BoolExpression::And(a, b) => {
                let x = a.is_well_formed();
                let y = b.is_well_formed();
                x && y
            },
            BoolExpression::Or(a, b) => {
                let x = a.is_well_formed();
                let y = b.is_well_formed();
                x && y
            },
            BoolExpression::Not(a) => a.is_well_formed(),
        }
    }

    /// Evaluates the expression against `cpu_info`. Both operands of a
    /// conjunction or disjunction are evaluated, whatever the first gives.
    pub fn evaluate<C: CpuInformation + ?Sized>(&self, cpu_info: &C) -> (r: Option<bool>)
        requires
            self.well_formed(),
        ensures
            r == self.value(cpu_info.cpuid_values(), cpu_info.msr_values()),
        decreases self,
    {
        match self {
            BoolExpression::CpuidBitSet(query, reg, bit) => {
                match cpu_info.cpuid(*query) {
                    Some(r) => Some(bit_set_u32(r.get(*reg), *bit)),
                    // When the CPU says the leaf is not supported, the bit is considered unset.
                    None => Some(false),
                }
            },
            BoolExpression::MsrBitSet(index, bit) => {
                match cpu_info.rdmsr(*index) {
                    Some(v) => Some(bit_set_u64(v, *bit)),
                    None => None,
                }
            },
            BoolExpression::And(expr1, expr2) => {
                let a = expr1.evaluate(cpu_info);
                let b = expr2.evaluate(cpu_info);
                match (a, b) {
                    (Some(x), Some(y)) => Some(x && y),
                    _ => None,
                }
            },
            BoolExpression::Or(expr1, expr2) => {
                let a = expr1.evaluate(cpu_info);
                let b = expr2.evaluate(cpu_info);
                match (a, b) {
                    (Some(x), Some(y)) => Some(x || y),
                    _ => None,
                }
            },
            BoolExpression::Not(expr) => {
                match expr.evaluate(cpu_info) {
                    Some(x) => Some(!x),
                    None => None,
                }
            },
        }
    }

    /// A copy of the expression.
    fn duplicate(&self) -> (r: BoolExpression)
        ensures
            r == *self,
        decreases self,
    {
        match self {
            BoolExpression::CpuidBitSet(query, reg, bit) => BoolExpression::CpuidBitSet(
                *query,
                *reg,
                *bit,
            ),
            BoolExpression::MsrBitSet(index, bit) => BoolExpression::MsrBitSet(*index, *bit),
            BoolExpression::And(a, b) => BoolExpression::And(
                Box::new(a.duplicate()),
                Box::new(b.duplicate()),
            ),
            BoolExpression::Or(a, b) => BoolExpression::Or(
                Box::new(a.duplicate()),
                Box::new(b.duplicate()),
            ),
            BoolExpression::Not(a) => BoolExpression::Not(Box::new(a.duplicate())),
        }
    }
}

/// Tests bit `bit` of a 32-bit value.
pub fn bit_set_u32(value: u32, bit: Bit) -> (r: bool)
    requires
        bit < 32,
    ensures
        r == bit_is_set(value as nat, bit as nat),
{
    let shift: u32 = bit as u32;
    let shifted: u32 = value >> shift;
    proof {
        vstd::bits::lemma_u32_shr_is_div(value, shift);
        assert(value & (1u32 << shift) != 0 <==> shifted % 2 == 1) by (bit_vector)
            requires
                shift < 32,
                shifted == value >> shift,
        ;
    }
    value & (1u32 << shift) != 0
}

/// Tests bit `bit` of a 64-bit value.
pub fn bit_set_u64(value: u64, bit: Bit) -> (r: bool)
    requires
        bit < 64,
    ensures
        r == bit_is_set(value as nat, bit as nat),
{
    let shift: u64 = bit as u64;
    let shifted: u64 = value >> shift;
    proof {
        vstd::bits::lemma_u64_shr_is_div(value, shift);
        assert(value & (1u64 << shift) != 0 <==> shifted % 2 == 1) by (bit_vector)
            requires
                shift < 64,
                shifted == value >> shift,
        ;
    }
    value & (1u64 << shift) != 0
}

impl Clone for BoolExpression {
    fn clone(&self) -> (r: Self)
        ensures
            r == *self,
    {
        self.duplicate()
    }
}

impl std::ops::BitAnd for BoolExpression {
    type Output = BoolExpression;

    fn bitand(self, rhs: Self) -> (r: Self::Output) {
        BoolExpression::And(Box::new(self), Box::new(rhs))
    }
}

impl vstd::std_specs::ops::BitAndSpecImpl for BoolExpression {
    open spec fn obeys_bitand_spec() -> bool {
        true
    }

    open spec fn bitand_req(self, rhs: Self) -> bool {
        true
    }

    open spec fn bitand_spec(self, rhs: Self) -> Self::Output {
        BoolExpression::And(Box::new(self), Box::new(rhs))
    }
}

impl std::ops::BitOr for BoolExpression {
    type Output = BoolExpression;

    fn bitor(self, rhs: Self) -> (r: Self::Output) {
        BoolExpression::Or(Box::new(self), Box::new(rhs))
    }
}

impl vstd::std_specs::ops::BitOrSpecImpl for BoolExpression {
    open spec fn obeys_bitor_spec() -> bool {
        true
    }

    open spec fn bitor_req(self, rhs: Self) -> bool {
        true
    }

    open spec fn bitor_spec(self, rhs: Self) -> Self::Output {
        BoolExpression::Or(Box::new(self), Box::new(rhs))
    }
}

impl std::ops::Not for BoolExpression {
    type Output = BoolExpression;

    fn not(self) -> (r: Self::Output) {
        BoolExpression::Not(Box::new(self))
    }
}

impl vstd::std_specs::ops::NotSpecImpl for BoolExpression {
    open spec fn obeys_not_spec() -> bool {
        true
    }

    open spec fn not_req(self) -> bool {
        true
    }

    open spec fn not_spec(self) -> Self::Output {
        BoolExpression::Not(Box::new(self))
    }
}

/// A CPU feature: a name and the expression that tells whether a CPU has it.
#[derive(Debug, PartialEq, Eq)]
pub struct Feature {
    pub name: String,
    expr: BoolExpression,
}

impl Clone for Feature {
    fn clone(&self) -> (feature: Self)
        ensures
            feature.name_text() == self.name_text(),
            feature.expression() == self.expression(),
    {
        Feature { name: self.name.clone(), expr: self.expr.clone() }
    }
}

impl Feature {
    /// The name of the feature, as text.
    pub closed spec fn name_text(&self) -> Seq<char> {
        self.name@
    }

    /// The expression of the feature.
    pub closed spec fn expression(&self) -> BoolExpression {
        self.expr
    }

    /// The feature named `name` that `expr` tells of.
    pub fn new(name: &str, expr: BoolExpression) -> (feature: Self)
        ensures
            feature.name_text() == name@,
            feature.expression() == expr,
    {
        Self { expr, name: name.to_owned() }
    }

    /// Tests whether the feature's expression is well formed.
    pub fn is_well_formed(&self) -> (r: bool)
        ensures
            r == self.expression().well_formed(),
    {
        self.expr.is_well_formed()
    }

    /// Whether `cpu_info` has the feature: the value of the feature's
    /// expression against it.
    pub fn is_present<C: CpuInformation + ?Sized>(&self, cpu_info: &C) -> (r: Option<bool>)
        requires
            self.expression().well_formed(),
        ensures
            r == self.expression().value(cpu_info.cpuid_values(), cpu_info.msr_values()),
    {
        self.expr.evaluate(cpu_info)
    }
}

/// A test of a bit of a CPUID leaf that the source does not know is false,
/// never unknown.
pub proof fn lemma_unknown_leaf_is_false(
    query: CpuidQuery,
    reg: CpuidRegister,
    bit: Bit,
    cpuid: Map<CpuidQuery, CpuidResult>,
    msrs: Map<u32, u64>,
)
    requires
        !cpuid.contains_key(query),
    ensures
        BoolExpression::CpuidBitSet(query, reg, bit).value(cpuid, msrs) == Some(false),
{
}

/// A test of a bit of an MSR that the source does not know is unknown.
pub proof fn lemma_unknown_msr_is_unknown(
    index: u32,
    bit: Bit,
    cpuid: Map<CpuidQuery, CpuidResult>,
    msrs: Map<u32, u64>,
)
    requires
        !msrs.contains_key(index),
    ensures
        BoolExpression::MsrBitSet(index, bit).value(cpuid, msrs) is None,
{
}

/// A conjunction or disjunction with an unknown operand is unknown, whatever
/// the other operand is: also where the other operand is false, or true.
pub proof fn lemma_unknown_operand_is_unknown(
    a: BoolExpression,
    b: BoolExpression,
    cpuid: Map<CpuidQuery, CpuidResult>,
    msrs: Map<u32, u64>,
)
    requires
        a.value(cpuid, msrs) is None || b.value(cpuid, msrs) is None,
    ensures
        BoolExpression::And(Box::new(a), Box::new(b)).value(cpuid, msrs) is None,
        BoolExpression::Or(Box::new(a), Box::new(b)).value(cpuid, msrs) is None,
{
}

/// Negation keeps unknown unknown and inverts what is known.
pub proof fn lemma_negation(
    a: BoolExpression,
    cpuid: Map<CpuidQuery, CpuidResult>,
    msrs: Map<u32, u64>,
)
    ensures
        BoolExpression::Not(Box::new(a)).value(cpuid, msrs) == not_value(a.value(cpuid, msrs)),
        a.value(cpuid, msrs) is None <==> BoolExpression::Not(Box::new(a)).value(cpuid, msrs)
            is None,
{
}

/// Only a test of an MSR that the source does not know makes an expression
/// unknown: against a source that knows every MSR, every expression has a
/// known value.
pub proof fn lemma_known_msrs_give_known_value(
    e: BoolExpression,
    cpuid: Map<CpuidQuery, CpuidResult>,
    msrs: Map<u32, u64>,
)
    requires
        forall|index: u32| msrs.contains_key(index),
    ensures
        e.value(cpuid, msrs) is Some,
    decreases e,
{
    match e {
        BoolExpression::CpuidBitSet(_, _, _) => {},
        BoolExpression::MsrBitSet(_, _) => {},
        BoolExpression::And(a, b) => {
            lemma_known_msrs_give_known_value(*a, cpuid, msrs);
            lemma_known_msrs_give_known_value(*b, cpuid, msrs);
        },
        BoolExpression::Or(a, b) => {
            lemma_known_msrs_give_known_value(*a, cpuid, msrs);
            lemma_known_msrs_give_known_value(*b, cpuid, msrs);
        },
        BoolExpression::Not(a) => {
            lemma_known_msrs_give_known_value(*a, cpuid, msrs);
        },
    }
}

/// Evaluation is repeatable: two results of evaluating one expression against
/// one source are the same.
pub proof fn lemma_evaluation_repeats(
    e: BoolExpression,
    cpuid: Map<CpuidQuery, CpuidResult>,
    msrs: Map<u32, u64>,
    first: Option<bool>,
    second: Option<bool>,
)
    requires
        first == e.value(cpuid, msrs),
        second == e.value(cpuid, msrs),
    ensures
        first == second,
{
}

} // verus!
