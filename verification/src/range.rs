use crate::producer::{BackProducer, Producer};
use std::ops::Range;
use vstd::prelude::*;

verus! {

/// The integers from `start` up to, but not including, `end`, in rising order.
pub open spec fn upto(start: int, end: int) -> Seq<i32> {
    if start < end {
        Seq::new((end - start) as nat, |k: int| (start + k) as i32)
    } else {
        Seq::empty()
    }
}

/// A range of integers yields them in rising order, without going past its end.
impl Producer for Range<i32> {
    type Item = i32;

    open spec fn inv(&self) -> bool {
        true
    }

    open spec fn remaining(&self) -> Seq<i32> {
        upto(self.start as int, self.end as int)
    }

    fn next(&mut self) -> (r: Option<i32>) {
        if self.start < self.end {
            let x = self.start;
            self.start = x + 1;
            Some(x)
        } else {
            None
        }
    }
}

impl BackProducer for Range<i32> {
    fn next_back(&mut self) -> (r: Option<i32>) {
        if self.start < self.end {
            self.end = self.end - 1;
            Some(self.end)
        } else {
            None
        }
    }
}

} // verus!
