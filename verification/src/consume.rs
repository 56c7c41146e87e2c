use crate::producer::{BackProducer, Producer};
use vstd::prelude::*;

verus! {

/// Pulls from the front until nothing remains and returns the items in the order in
/// which they came.
pub fn collect<P: Producer>(p: P) -> (out: Vec<P::Item>)
    requires
        p.inv(),
    ensures
        out@ == p.remaining(),
{
    let mut p = p;
    let ghost all = p.remaining();
    let mut out: Vec<P::Item> = Vec::new();
    loop
        invariant
            p.inv(),
            out@ + p.remaining() == all,
        ensures
            out@ == all,
        decreases p.remaining().len(),
    {
        match p.next() {
            Some(x) => {
                out.push(x);
            },
            None => {
                break ;
            },
        }
    }
    out
}

/// Pulls from the back until nothing remains and returns the items in the order in
/// which they came, which is the reverse of their forward order.
pub fn collect_back<P: BackProducer>(p: P) -> (out: Vec<P::Item>)
    requires
        p.inv(),
    ensures
        out@ == p.remaining().reverse(),
{
    let mut p = p;
    let ghost all = p.remaining();
    let mut out: Vec<P::Item> = Vec::new();
    loop
        invariant
            p.inv(),
            p.remaining() + out@.reverse() == all,
        ensures
            out@.reverse() == all,
        decreases p.remaining().len(),
    {
        match p.next_back() {
            Some(x) => {
                out.push(x);
            },
            None => {
                break ;
            },
        }
    }
    out
}

/// Pulls from the front until nothing remains and returns the number of items that
/// came. The number must fit a `usize`.
pub fn count<P: Producer>(p: P) -> (n: usize)
    requires
        p.inv(),
        p.remaining().len() <= usize::MAX,
    ensures
        n == p.remaining().len(),
{
    let mut p = p;
    let ghost total = p.remaining().len();
    let mut n: usize = 0;
    loop
        invariant
            p.inv(),
            n + p.remaining().len() == total,
            total <= usize::MAX,
        ensures
            n == total,
        decreases p.remaining().len(),
    {
        match p.next() {
            Some(_) => {
                n = n + 1;
            },
            None => {
                break ;
            },
        }
    }
    n
}

} // verus!
