//! Keeps the set of protocols closed.

use vstd::prelude::*;

verus! {

pub trait Sealed {

}

} // verus!
