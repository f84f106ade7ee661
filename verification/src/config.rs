use crate::bindings::compatible;
use crate::compiler::OptLevel;
use crate::heap::HeapSettings;
use vstd::prelude::*;

verus! {

/// The configuration state of a driver, as the contracts speak of it: the
/// bindings registry read as a mapping, the optimization level, and the heap
/// sizes.
#[verifier::ext_equal]
pub ghost struct DriverConfig {
    pub bindings: Map<(Seq<char>, Seq<char>), Seq<char>>,
    pub opt_level: OptLevel,
    pub min_reserved_size: u64,
    pub max_reserved_size: u64,
    pub guard_size: u64,
}

/// The heap settings a configuration denotes.
pub open spec fn heap_of(c: DriverConfig) -> HeapSettings {
    HeapSettings {
        min_reserved_size: c.min_reserved_size,
        max_reserved_size: c.max_reserved_size,
        guard_size: c.guard_size,
    }
}

/// One non-builtins configuration operation of the driver.
pub ghost enum ConfigOp {
    MergeBindings { b: Map<(Seq<char>, Seq<char>), Seq<char>> },
    SetOptLevel { level: OptLevel },
    SetMinReservedSize { size: u64 },
    SetMaxReservedSize { size: u64 },
    SetGuardSize { size: u64 },
}

/// The driver configuration after one operation. A bindings merge that
/// conflicts leaves the state unchanged: the driver reports the conflict at
/// the call site and stays usable.
pub open spec fn apply_config(s: DriverConfig, op: ConfigOp) -> DriverConfig {
    match op {
        ConfigOp::MergeBindings { b } => if compatible(s.bindings, b) {
            DriverConfig { bindings: s.bindings.union_prefer_right(b), ..s }
        } else {
            s
        },
        ConfigOp::SetOptLevel { level } => DriverConfig { opt_level: level, ..s },
        ConfigOp::SetMinReservedSize { size } => DriverConfig { min_reserved_size: size, ..s },
        ConfigOp::SetMaxReservedSize { size } => DriverConfig { max_reserved_size: size, ..s },
        ConfigOp::SetGuardSize { size } => DriverConfig { guard_size: size, ..s },
    }
}

/// When two configuration operations are free to reorder: operations on
/// different fields always are; two bindings merges are when they agree on
/// every key both bind; two writes of one field only when they write one
/// value.
pub open spec fn ops_commute(a: ConfigOp, b: ConfigOp) -> bool {
    match (a, b) {
        (ConfigOp::MergeBindings { b: m1 }, ConfigOp::MergeBindings { b: m2 }) => compatible(
            m1,
            m2,
        ),
        (ConfigOp::SetOptLevel { level: l1 }, ConfigOp::SetOptLevel { level: l2 }) => l1 == l2,
        (
            ConfigOp::SetMinReservedSize { size: s1 },
            ConfigOp::SetMinReservedSize { size: s2 },
        ) => s1 == s2,
        (
            ConfigOp::SetMaxReservedSize { size: s1 },
            ConfigOp::SetMaxReservedSize { size: s2 },
        ) => s1 == s2,
        (ConfigOp::SetGuardSize { size: s1 }, ConfigOp::SetGuardSize { size: s2 }) => s1 == s2,
        _ => true,
    }
}

/// Configuration commutativity: for non-builtins configuration operations,
/// the final driver configuration does not depend on the order in which two
/// operations are applied. Two bindings merges must agree on keys both bind,
/// and two writes of one field must write one value; with that, this holds
/// even when a merge conflicts with the accumulated registry and is refused.
pub proof fn lemma_config_commute(s: DriverConfig, a: ConfigOp, b: ConfigOp)
    requires
        ops_commute(a, b),
    ensures
        apply_config(apply_config(s, a), b) =~= apply_config(apply_config(s, b), a),
{
    match (a, b) {
        (ConfigOp::MergeBindings { b: m1 }, ConfigOp::MergeBindings { b: m2 }) => {
            let sb = s.bindings;
            if compatible(sb, m1) && compatible(sb, m2) {
                let u1 = sb.union_prefer_right(m1);
                let u2 = sb.union_prefer_right(m2);
                assert forall|k: (Seq<char>, Seq<char>)|
                    #[trigger] u1.dom().contains(k) && #[trigger] m2.dom().contains(
                        k,
                    ) implies u1[k] == m2[k] by {}
                assert forall|k: (Seq<char>, Seq<char>)|
                    #[trigger] u2.dom().contains(k) && #[trigger] m1.dom().contains(
                        k,
                    ) implies u2[k] == m1[k] by {}
                assert(u1.union_prefer_right(m2) =~= u2.union_prefer_right(m1));
            } else if compatible(sb, m1) && !compatible(sb, m2) {
                let k = choose|k: (Seq<char>, Seq<char>)|
                    #[trigger] sb.dom().contains(k) && #[trigger] m2.dom().contains(k) && sb[k]
                        != m2[k];
                let u1 = sb.union_prefer_right(m1);
                assert(u1.dom().contains(k) && u1[k] == sb[k]);
                assert(!compatible(u1, m2));
            } else if !compatible(sb, m1) && compatible(sb, m2) {
                let k = choose|k: (Seq<char>, Seq<char>)|
                    #[trigger] sb.dom().contains(k) && #[trigger] m1.dom().contains(k) && sb[k]
                        != m1[k];
                let u2 = sb.union_prefer_right(m2);
                assert(u2.dom().contains(k) && u2[k] == sb[k]);
                assert(!compatible(u2, m1));
            }
        },
        _ => {},
    }
}

} // verus!
