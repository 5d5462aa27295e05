use crate::value::{opt_view, StorageSpec, StorageValue};
use vstd::prelude::*;

verus! {

/// A slot storing a list of numbers that reads an absent entry as the
/// empty list and stores every write-back, so a list mutated to empty
/// stays stored as an encoded empty list.
pub struct NumberList;

impl StorageSpec<Vec<u32>> for NumberList {
    type Query = Vec<u32>;

    open spec fn spec_unhashed_key() -> Seq<u8> {
        seq![110u8, 117u8, 109u8, 98u8, 101u8, 114u8, 115u8]
    }

    open spec fn spec_query_of(v: Option<Seq<u32>>) -> Seq<u32> {
        match v {
            Some(s) => s,
            None => Seq::empty(),
        }
    }

    open spec fn spec_value_of(q: Seq<u32>) -> Option<Seq<u32>> {
        Some(q)
    }
}

impl StorageValue<Vec<u32>> for NumberList {
    fn unhashed_key() -> (k: Vec<u8>) {
        let mut k: Vec<u8> = Vec::new();
        k.push(110);
        k.push(117);
        k.push(109);
        k.push(98);
        k.push(101);
        k.push(114);
        k.push(115);
        proof {
            assert(k@ =~= Self::spec_unhashed_key());
        }
        k
    }

    fn from_optional_value_to_query(v: Option<Vec<u32>>) -> (q: Vec<u32>) {
        match v {
            Some(x) => x,
            None => Vec::new(),
        }
    }

    fn from_query_to_optional_value(q: Vec<u32>) -> (r: Option<Vec<u32>>) {
        Some(q)
    }
}

/// A slot storing a list of numbers under the convention that the empty
/// list means absence: reading an absent entry gives the empty list, and
/// writing the empty list back deletes the entry.
pub struct SparseNumberList;

impl StorageSpec<Vec<u32>> for SparseNumberList {
    type Query = Vec<u32>;

    open spec fn spec_unhashed_key() -> Seq<u8> {
        seq![115u8, 112u8, 97u8, 114u8, 115u8, 101u8]
    }

    open spec fn spec_query_of(v: Option<Seq<u32>>) -> Seq<u32> {
        match v {
            Some(s) => s,
            None => Seq::empty(),
        }
    }

    open spec fn spec_value_of(q: Seq<u32>) -> Option<Seq<u32>> {
        if q.len() == 0 {
            None
        } else {
            Some(q)
        }
    }
}

impl StorageValue<Vec<u32>> for SparseNumberList {
    fn unhashed_key() -> (k: Vec<u8>) {
        let mut k: Vec<u8> = Vec::new();
        k.push(115);
        k.push(112);
        k.push(97);
        k.push(114);
        k.push(115);
        k.push(101);
        proof {
            assert(k@ =~= Self::spec_unhashed_key());
        }
        k
    }

    fn from_optional_value_to_query(v: Option<Vec<u32>>) -> (q: Vec<u32>) {
        match v {
            Some(x) => x,
            None => Vec::new(),
        }
    }

    fn from_query_to_optional_value(q: Vec<u32>) -> (r: Option<Vec<u32>>) {
        if q.len() == 0 {
            proof {
                assert(opt_view(None::<Vec<u32>>) == Self::spec_value_of(q@));
            }
            None
        } else {
            Some(q)
        }
    }
}

/// A slot storing a single counter that reads an absent entry as zero and
/// stores every write-back, including zero.
pub struct Counter;

impl StorageSpec<u32> for Counter {
    type Query = u32;

    open spec fn spec_unhashed_key() -> Seq<u8> {
        seq![99u8, 111u8, 117u8, 110u8, 116u8]
    }

    open spec fn spec_query_of(v: Option<u32>) -> u32 {
        match v {
            Some(x) => x,
            None => 0,
        }
    }

    open spec fn spec_value_of(q: u32) -> Option<u32> {
        Some(q)
    }
}

impl StorageValue<u32> for Counter {
    fn unhashed_key() -> (k: Vec<u8>) {
        let mut k: Vec<u8> = Vec::new();
        k.push(99);
        k.push(111);
        k.push(117);
        k.push(110);
        k.push(116);
        proof {
            assert(k@ =~= Self::spec_unhashed_key());
        }
        k
    }

    fn from_optional_value_to_query(v: Option<u32>) -> (q: u32) {
        match v {
            Some(x) => x,
            None => 0,
        }
    }

    fn from_query_to_optional_value(q: u32) -> (r: Option<u32>) {
        Some(q)
    }
}

} // verus!
