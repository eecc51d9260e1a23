//! Equality and order of payloads.
//!
//! Payloads are equal when all their fields are. They are ordered field by
//! field, in the order in which the fields are declared: the first field on
//! which two payloads differ decides.

use crate::payload::OffchainPayload;
use core::cmp::Ordering;
use vstd::prelude::*;
use vstd::std_specs::cmp::{PartialEqSpec, PartialOrdSpec};

verus! {

/// How two numbers compare.
pub open spec fn number_order(a: u32, b: u32) -> Ordering {
    if a < b {
        Ordering::Less
    } else if a == b {
        Ordering::Equal
    } else {
        Ordering::Greater
    }
}

/// How two payloads compare, given how their public keys do: by class, then
/// instance, then public key, then views, then votes. Where the keys do not
/// compare, the payloads that agree on class and instance do not either.
pub open spec fn payload_order<P>(
    a: OffchainPayload<P>,
    b: OffchainPayload<P>,
    keys: Option<Ordering>,
) -> Option<Ordering> {
    if a.class_id != b.class_id {
        Some(number_order(a.class_id, b.class_id))
    } else if a.instance_id != b.instance_id {
        Some(number_order(a.instance_id, b.instance_id))
    } else if keys != Some(Ordering::Equal) {
        keys
    } else if a.views != b.views {
        Some(number_order(a.views, b.views))
    } else {
        Some(number_order(a.votes, b.votes))
    }
}

/// Whether two payloads are equal, given whether their public keys are.
pub open spec fn payload_eq<P>(a: OffchainPayload<P>, b: OffchainPayload<P>, keys: bool) -> bool {
    a.class_id == b.class_id && a.instance_id == b.instance_id && keys && a.views == b.views
        && a.votes == b.votes
}

/// Compares two numbers.
fn order_numbers(a: u32, b: u32) -> (r: Ordering)
    ensures
        r == number_order(a, b),
{
    if a < b {
        Ordering::Less
    } else if a == b {
        Ordering::Equal
    } else {
        Ordering::Greater
    }
}

impl<P: PartialEq> PartialEq for OffchainPayload<P> {
    fn eq(&self, other: &Self) -> (r: bool) {
        self.class_id == other.class_id && self.instance_id == other.instance_id && self.public
            == other.public && self.views == other.views && self.votes == other.votes
    }
}

impl<P: PartialEq> vstd::std_specs::cmp::PartialEqSpecImpl for OffchainPayload<P> {
    open spec fn obeys_eq_spec() -> bool {
        P::obeys_eq_spec()
    }

    open spec fn eq_spec(&self, other: &Self) -> bool {
        payload_eq(*self, *other, self.public.eq_spec(&other.public))
    }
}

impl<P: PartialOrd> PartialOrd for OffchainPayload<P> {
    fn partial_cmp(&self, other: &Self) -> (r: Option<Ordering>) {
        if self.class_id != other.class_id {
            Some(order_numbers(self.class_id, other.class_id))
        } else if self.instance_id != other.instance_id {
            Some(order_numbers(self.instance_id, other.instance_id))
        } else {
            match self.public.partial_cmp(&other.public) {
                Some(Ordering::Equal) => if self.views != other.views {
                    Some(order_numbers(self.views, other.views))
                } else {
                    Some(order_numbers(self.votes, other.votes))
                },
                unequal => unequal,
            }
        }
    }
}

impl<P: PartialOrd> vstd::std_specs::cmp::PartialOrdSpecImpl for OffchainPayload<P> {
    open spec fn obeys_partial_cmp_spec() -> bool {
        P::obeys_partial_cmp_spec()
    }

    open spec fn partial_cmp_spec(&self, other: &Self) -> Option<Ordering> {
        payload_order(*self, *other, self.public.partial_cmp_spec(&other.public))
    }
}

/// Two payloads compare as equal exactly when they are equal, where their
/// public keys compare as equal exactly when they are equal.
pub proof fn law_order_agrees_with_equality<P>(
    a: OffchainPayload<P>,
    b: OffchainPayload<P>,
    keys: Option<Ordering>,
)
    ensures
        payload_order(a, b, keys) == Some(Ordering::Equal) <==> payload_eq(
            a,
            b,
            keys == Some(Ordering::Equal),
        ),
{
}

/// Turning two payloads round turns their order round, where it does so for
/// their public keys.
pub proof fn law_order_turns_round<P>(
    a: OffchainPayload<P>,
    b: OffchainPayload<P>,
    keys: Option<Ordering>,
    keys_back: Option<Ordering>,
)
    requires
        keys == Some(Ordering::Less) <==> keys_back == Some(Ordering::Greater),
        keys == Some(Ordering::Greater) <==> keys_back == Some(Ordering::Less),
        keys == Some(Ordering::Equal) <==> keys_back == Some(Ordering::Equal),
    ensures
        payload_order(a, b, keys) == Some(Ordering::Less) <==> payload_order(b, a, keys_back)
            == Some(Ordering::Greater),
        payload_order(a, b, keys) == Some(Ordering::Greater) <==> payload_order(b, a, keys_back)
            == Some(Ordering::Less),
        payload_order(a, b, keys) == Some(Ordering::Equal) <==> payload_order(b, a, keys_back)
            == Some(Ordering::Equal),
{
}

} // verus!
