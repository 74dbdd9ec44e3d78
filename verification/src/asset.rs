//! "Asset" is the catch-all term for any data unit the catalog can store.

use vstd::prelude::*;

use vstd::string::StrSliceExecFns;

verus! {

/// Common asset metadata.
#[derive(Debug, Clone)]
pub struct AssetHeader {
    pub id: String,
}

/// The part of `s` after its last `/` (all of `s` if it has none).
pub open spec fn after_last_slash(s: Seq<char>) -> Seq<char>
    decreases s.len(),
{
    if s.len() == 0 {
        s
    } else if s.last() == '/' {
        Seq::empty()
    } else {
        after_last_slash(s.drop_last()).push(s.last())
    }
}

impl AssetHeader {
    /// The last component of the ID: what follows its last `/`.
    pub fn nickname(&self) -> (r: &str)
        ensures
            r@ == after_last_slash(self.id@),
    {
        let s = self.id.as_str();
        let n = s.unicode_len();
        let mut k = n;
        assert(s@.subrange(0, n as int) =~= s@);
        assert(after_last_slash(s@) + s@.subrange(n as int, n as int) =~= after_last_slash(s@));
        while k > 0 && s.get_char(k - 1) != '/'
            invariant
                k <= n,
                n == s@.len(),
                after_last_slash(s@) == after_last_slash(s@.subrange(0, k as int)) + s@.subrange(k as int, n as int),
            decreases k,
        {
            let ghost pre = s@.subrange(0, k as int);
            assert(pre.drop_last() =~= s@.subrange(0, k - 1));
            assert(s@.subrange(k - 1, n as int) =~= seq![s@[k - 1]] + s@.subrange(k as int, n as int));
            assert(after_last_slash(pre) == after_last_slash(s@.subrange(0, k - 1)).push(pre.last()));
            assert(after_last_slash(s@.subrange(0, k - 1)).push(s@[k - 1]) + s@.subrange(k as int, n as int)
                =~= after_last_slash(s@.subrange(0, k - 1)) + s@.subrange(k - 1, n as int));
            k = k - 1;
        }
        assert(after_last_slash(s@.subrange(0, k as int)) =~= Seq::<char>::empty());
        assert(s@.subrange(0, n as int) =~= s@);
        s.substring_char(k, n)
    }
}

/// Marks the types that may be assets; only this library implements it.
pub trait Sealed {}

/// Any data unit the catalog can store, with its common metadata.
pub trait Asset: Sealed {
    fn header(&self) -> &AssetHeader;

    fn header_mut(&mut self) -> &mut AssetHeader;

    /// The name of the asset's type, for display.
    fn asset_type_name(&self) -> &'static str;
}

/// A kind of species, for infighting and the like.
#[derive(Debug, Clone)]
pub struct Species {
    pub header: AssetHeader,
}

impl Sealed for Species {}

impl Asset for Species {
    fn header(&self) -> (r: &AssetHeader)
        ensures
            r == &self.header,
    {
        &self.header
    }

    fn header_mut(&mut self) -> (r: &mut AssetHeader)
        ensures
            *r == old(self).header,
            final(self).header == *final(r),
    {
        &mut self.header
    }

    fn asset_type_name(&self) -> (r: &'static str)
        ensures
            r@ == "Species"@,
    {
        "Species"
    }
}

} // verus!
