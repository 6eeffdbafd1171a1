//! The standard comparison operators for samples and presets: samples
//! compare by their file stems, presets by the instant at which they were
//! made.

use vstd::prelude::*;
use core::cmp::Ordering;
use vstd::std_specs::cmp::PartialOrdSpecImpl;
use crate::order::{bytes_le, spec_bytes_le};
use crate::preset::Preset;
use crate::sample::Sample;

verus! {

impl PartialOrd for Preset {
    fn partial_cmp(&self, other: &Self) -> (order: Option<Ordering>) {
        if self.created < other.created {
            Some(Ordering::Less)
        } else if self.created == other.created {
            Some(Ordering::Equal)
        } else {
            Some(Ordering::Greater)
        }
    }
}

impl PartialOrdSpecImpl for Preset {
    open spec fn obeys_partial_cmp_spec() -> bool {
        true
    }

    open spec fn partial_cmp_spec(&self, other: &Self) -> Option<Ordering> {
        if self.created < other.created {
            Some(Ordering::Less)
        } else if self.created == other.created {
            Some(Ordering::Equal)
        } else {
            Some(Ordering::Greater)
        }
    }
}

impl PartialOrd for Sample {
    fn partial_cmp(&self, other: &Self) -> (order: Option<Ordering>) {
        let mine = self.filename.as_str().as_bytes();
        let theirs = other.filename.as_str().as_bytes();
        if bytes_le(mine, theirs) {
            if bytes_le(theirs, mine) {
                Some(Ordering::Equal)
            } else {
                Some(Ordering::Less)
            }
        } else {
            Some(Ordering::Greater)
        }
    }
}

impl PartialOrdSpecImpl for Sample {
    open spec fn obeys_partial_cmp_spec() -> bool {
        true
    }

    open spec fn partial_cmp_spec(&self, other: &Self) -> Option<Ordering> {
        let mine = vstd::utf8::encode_utf8(self.filename@);
        let theirs = vstd::utf8::encode_utf8(other.filename@);
        if spec_bytes_le(mine, theirs) {
            if spec_bytes_le(theirs, mine) {
                Some(Ordering::Equal)
            } else {
                Some(Ordering::Less)
            }
        } else {
            Some(Ordering::Greater)
        }
    }
}

} // verus!
