use vstd::prelude::*;
use core::cmp::Ordering;
use vstd::std_specs::cmp::PartialOrdSpecImpl;

verus! {

/// Priority value with inverted ordering: a lower number is a higher priority.
///
/// Priority 0 is the highest; in a 64-level system priority 63 is the lowest.
#[derive(Debug, Clone, Copy, PartialEq, Eq, Structural)]
pub struct Priority(usize);

impl View for Priority {
    type V = nat;

    /// The numeric level of the priority.
    closed spec fn view(&self) -> nat {
        self.0 as nat
    }
}

/// `a` is a strictly higher priority than `b`: its level is numerically smaller.
pub open spec fn higher(a: Priority, b: Priority) -> bool {
    a@ < b@
}

/// The scheduling order is a strict order inverse to the numeric one: no
/// priority is higher than itself, of two different priorities exactly one
/// is higher, "higher" is transitive, and "lower than" is "higher than" read
/// backwards.
pub proof fn lemma_priority_order(a: Priority, b: Priority, c: Priority)
    ensures
        !higher(a, a),
        a@ != b@ ==> (higher(a, b) != higher(b, a)),
        higher(a, b) && higher(b, c) ==> higher(a, c),
        higher(a, b) <==> a.order(&b) == Ordering::Greater,
        higher(b, a) <==> a.order(&b) == Ordering::Less,
{
}

/// Two priorities are equal exactly when their levels are: so
/// `Priority::new(a) == Priority::new(b)` exactly when `a == b`, a priority
/// after `set(v)` equals `Priority::new(v)`, and `partial_cmp` reports
/// `Equal` exactly for equal priorities.
pub proof fn lemma_priority_eq(a: Priority, b: Priority)
    ensures
        (a == b) <==> (a@ == b@),
        (a == b) <==> (a.order(&b) == Ordering::Equal),
{
}

impl Priority {
    pub fn new(value: usize) -> (r: Self)
        ensures
            r@ == value,
    {
        Self(value)
    }

    pub fn to_usize(&self) -> (r: usize)
        ensures
            r == self@,
    {
        self.0
    }

    pub fn set(&mut self, prio: usize)
        ensures
            final(self)@ == prio,
    {
        self.0 = prio
    }

    /// `self` is scheduled after `other`.
    pub fn is_lower_than(&self, other: &Priority) -> (r: bool)
        ensures
            r == higher(*other, *self),
    {
        self < other
    }

    /// `self` is scheduled before `other`.
    pub fn is_higher_than(&self, other: &Priority) -> (r: bool)
        ensures
            r == higher(*self, *other),
    {
        self > other
    }

    /// The order of scheduling: `Less` when `self` is the lower priority.
    pub open spec fn order(&self, other: &Self) -> Ordering {
        if higher(*other, *self) {
            Ordering::Less
        } else if self@ == other@ {
            Ordering::Equal
        } else {
            Ordering::Greater
        }
    }
}

impl PartialOrd for Priority {
    fn partial_cmp(&self, other: &Self) -> (r: Option<Ordering>) {
        if other.0 < self.0 {
            Some(Ordering::Less)
        } else if other.0 == self.0 {
            Some(Ordering::Equal)
        } else {
            Some(Ordering::Greater)
        }
    }
}

impl PartialOrdSpecImpl for Priority {
    open spec fn obeys_partial_cmp_spec() -> bool {
        true
    }

    open spec fn partial_cmp_spec(&self, other: &Self) -> Option<Ordering> {
        Some(self.order(other))
    }
}

} // verus!
