//! Short form attribute forks, whose attributes are stored in the inode itself.
use vstd::prelude::*;

use crate::attr::{get_namespace_size_from_flags, list_one, xattr_list, xattr_size};
use crate::definitions::ENOATTR;
use crate::dir3::bytes_eq;
use crate::utils::{be16, decode_bytes, decode_u16, decode_u8, ParseError};

verus! {

/// The header of a short form attribute fork: its total size and its number of attributes.
#[derive(Debug, Clone, Copy, PartialEq, Eq, Structural)]
pub struct AttrSfHdr {
    pub totsize: u16,
    pub count: u8,
    pub padding: u8,
}

impl AttrSfHdr {
    pub fn decode(raw: &[u8]) -> (r: Result<AttrSfHdr, ParseError>)
        ensures
            r is Ok <==> raw@.len() >= 4,
            r matches Ok(h) ==> h.totsize as int == be16(raw@, 0) && h.count == raw@[2]
                && h.padding == raw@[3],
    {
        let totsize = match decode_u16(raw, 0) {
            Ok(v) => v,
            Err(e) => return Err(e),
        };
        let count = match decode_u8(raw, 2) {
            Ok(v) => v,
            Err(e) => return Err(e),
        };
        let padding = match decode_u8(raw, 3) {
            Ok(v) => v,
            Err(e) => return Err(e),
        };
        Ok(AttrSfHdr { totsize, count, padding })
    }
}

/// A short form attribute: its name length, flags, and name followed by value.
#[derive(Debug, Clone)]
pub struct AttrSfEntry {
    pub namelen: u8,
    pub flags: u8,
    pub nameval: Vec<u8>,
}

impl View for AttrSfEntry {
    type V = (u8, u8, Seq<u8>);

    open spec fn view(&self) -> Self::V {
        (self.namelen, self.flags, self.nameval@)
    }
}

/// The short form attribute at byte `ofs` of `raw` and its length, if `raw` holds it: a name
/// length, a value length and flags, of a byte each, then the name and the value.  Name and
/// value together are at most 255 bytes long.
pub open spec fn spec_sf_attr(raw: Seq<u8>, ofs: int) -> Option<((u8, u8, Seq<u8>), int)> {
    if ofs < 0 || ofs + 3 > raw.len() {
        None
    } else {
        let n = raw[ofs] + raw[ofs + 1];
        if n > 255 || ofs + 3 + n > raw.len() {
            None
        } else {
            Some(((raw[ofs], raw[ofs + 2], raw.subrange(ofs + 3, ofs + 3 + n)), 3 + n))
        }
    }
}

/// The `k` short form attributes stored from byte `ofs` of `raw` on, if `raw` holds them all.
pub open spec fn spec_sf_attrs(raw: Seq<u8>, ofs: int, k: nat) -> Option<Seq<(u8, u8, Seq<u8>)>>
    decreases k,
{
    if k == 0 {
        Some(Seq::empty())
    } else {
        match spec_sf_attr(raw, ofs) {
            None => None,
            Some((e, n)) => match spec_sf_attrs(raw, ofs + n, (k - 1) as nat) {
                None => None,
                Some(rest) => Some(seq![e].add(rest)),
            },
        }
    }
}

impl AttrSfEntry {
    /// Decode the attribute at byte `ofs` of `raw`, and return its length.
    pub fn decode(raw: &[u8], ofs: usize) -> (r: Result<(AttrSfEntry, usize), ParseError>)
        ensures
            r is Ok <==> spec_sf_attr(raw@, ofs as int) is Some,
            r matches Ok((e, n)) ==> (e@, n as int) == spec_sf_attr(raw@, ofs as int).unwrap(),
    {
        let len: usize = raw.len();
        let namelen: u8 = match decode_u8(raw, ofs) {
            Ok(v) => v,
            Err(e) => return Err(e),
        };
        let valuelen: u8 = match decode_u8(raw, ofs + 1) {
            Ok(v) => v,
            Err(e) => return Err(e),
        };
        let flags: u8 = match decode_u8(raw, ofs + 2) {
            Ok(v) => v,
            Err(e) => return Err(e),
        };
        let n: usize = namelen as usize + valuelen as usize;
        if n > 255 {
            return Err(ParseError::InvalidValue);
        }
        let nameval: Vec<u8> = match decode_bytes(raw, ofs + 3, n) {
            Ok(v) => v,
            Err(e) => return Err(e),
        };
        Ok((AttrSfEntry { namelen, flags, nameval }, 3 + n))
    }
}

/// The flags and name of each of the short form attributes `list`.
pub open spec fn sf_items(list: Seq<(u8, u8, Seq<u8>)>) -> Seq<(u8, Seq<u8>)> {
    Seq::new(list.len(), |i: int| (list[i].1, list[i].2.subrange(0, list[i].0 as int)))
}

/// The index of the first of `list[k..]` whose name is `name`, if any.
pub open spec fn sf_attr_find(list: Seq<(u8, u8, Seq<u8>)>, name: Seq<u8>, k: int) -> Option<int>
    decreases list.len() - k,
{
    if k < 0 || k >= list.len() {
        None
    } else if list[k].2.subrange(0, list[k].0 as int) == name {
        Some(k)
    } else {
        sf_attr_find(list, name, k + 1)
    }
}

/// A short form attribute fork: its attributes, and the size of their listing.
#[derive(Debug, Clone)]
pub struct AttrShortform {
    pub list: Vec<AttrSfEntry>,
    pub total_size: u32,
}

impl AttrShortform {
    pub open spec fn view_list(&self) -> Seq<(u8, u8, Seq<u8>)> {
        self.list@.map_values(|e: AttrSfEntry| e@)
    }

    /// Each name is no longer than the bytes that hold it, and the size is that of the
    /// listing.
    pub open spec fn wf(&self) -> bool {
        &&& forall|i: int| 0 <= i < self.list@.len() ==> (#[trigger] self.list@[i]).namelen
            <= self.list@[i].nameval@.len()
        &&& self.total_size == xattr_size(sf_items(self.view_list()))
    }

    /// Decode a short form attribute fork from the start of `raw`.
    pub fn decode(raw: &[u8]) -> (r: Result<AttrShortform, ParseError>)
        ensures
            r is Ok <==> raw@.len() >= 4 && spec_sf_attrs(raw@, 4, raw@[2] as nat) is Some,
            r matches Ok(a) ==> a.wf() && a.view_list() == spec_sf_attrs(raw@, 4, raw@[2] as nat).unwrap(),
    {
        let hdr = match AttrSfHdr::decode(raw) {
            Ok(h) => h,
            Err(e) => return Err(e),
        };
        let len: usize = raw.len();
        let ghost whole = spec_sf_attrs(raw@, 4, hdr.count as nat);
        let ghost mut got: Seq<(u8, u8, Seq<u8>)> = Seq::empty();
        let mut list: Vec<AttrSfEntry> = Vec::new();
        let mut total_size: u32 = 0;
        let mut ofs: usize = 4;
        let mut i: u8 = 0;
        while i < hdr.count
            invariant
                0 <= i <= hdr.count,
                hdr.count == raw@[2],
                raw@.len() >= 4,
                ofs <= raw@.len(),
                len == raw@.len(),
                got.len() == i,
                whole == spec_sf_attrs(raw@, 4, hdr.count as nat),
                match spec_sf_attrs(raw@, ofs as int, (hdr.count - i) as nat) {
                    None => whole is None,
                    Some(rest) => whole == Some(got.add(rest)),
                },
                list@.map_values(|e: AttrSfEntry| e@) == got,
                forall|k: int| 0 <= k < list@.len() ==> (#[trigger] list@[k]).namelen
                    <= list@[k].nameval@.len(),
                total_size == xattr_size(sf_items(got)),
                total_size <= 264 * i,
            decreases hdr.count - i,
        {
            let (e, n) = match AttrSfEntry::decode(raw, ofs) {
                Ok(x) => x,
                Err(err) => {
                    proof {
                        assert(spec_sf_attrs(raw@, ofs as int, (hdr.count - i) as nat) is None);
                    }
                    return Err(err);
                },
            };
            proof {
                let (se, sn) = spec_sf_attr(raw@, ofs as int).unwrap();
                assert(sn == n);
                assert(ofs + n <= raw@.len());
                assert(sf_items(got.push(e@)).drop_last() =~= sf_items(got));
            }
            let ns: u32 = get_namespace_size_from_flags(e.flags);
            total_size = total_size + ns + e.namelen as u32 + 1;
            let ghost before = list@.map_values(|e: AttrSfEntry| e@);
            list.push(e);
            proof {
                assert(list@.map_values(|e: AttrSfEntry| e@) =~= before.push(e@));
                match spec_sf_attrs(raw@, ofs + n, (hdr.count - i - 1) as nat) {
                    None => {},
                    Some(rest2) => {
                        assert(got.push(e@).add(rest2) =~= got.add(seq![e@].add(rest2)));
                    },
                }
                got = got.push(e@);
            }
            ofs = ofs + n;
            i = i + 1;
        }
        proof {
            assert(got.add(Seq::empty()) =~= got);
        }
        Ok(AttrShortform { list, total_size })
    }

    /// A copy of these attributes.
    pub fn duplicate(&self) -> (r: AttrShortform)
        ensures
            r.total_size == self.total_size,
            r.view_list() == self.view_list(),
            self.wf() ==> r.wf(),
    {
        let n: usize = self.list.len();
        let mut list: Vec<AttrSfEntry> = Vec::new();
        let mut i: usize = 0;
        while i < n
            invariant
                0 <= i <= n,
                n == self.list@.len(),
                list@.len() == i,
                list@.map_values(|e: AttrSfEntry| e@) == self.view_list().subrange(0, i as int),
                forall|k: int| 0 <= k < i ==> (#[trigger] list@[k]).namelen == self.list@[k].namelen
                    && list@[k].nameval@ == self.list@[k].nameval@,
            decreases n - i,
        {
            let e = &self.list[i];
            let copy = AttrSfEntry {
                namelen: e.namelen,
                flags: e.flags,
                nameval: vstd::slice::slice_to_vec(e.nameval.as_slice()),
            };
            let ghost before = list@.map_values(|e: AttrSfEntry| e@);
            list.push(copy);
            proof {
                assert(list@.map_values(|e: AttrSfEntry| e@) =~= before.push(copy@));
                assert(self.view_list().subrange(0, i + 1) =~= self.view_list().subrange(0, i as int).push(self.view_list()[i as int]));
            }
            i = i + 1;
        }
        proof {
            assert(self.view_list().subrange(0, n as int) =~= self.view_list());
        }
        AttrShortform { list, total_size: self.total_size }
    }

    /// The size of the listing of the attributes.
    pub fn get_total_size(&self) -> (r: u32)
        requires
            self.wf(),
        ensures
            r == xattr_size(sf_items(self.view_list())),
    {
        self.total_size
    }

    /// The listing of the attributes: for each, its name space prefix, name and a NUL byte.
    pub fn list(&self) -> (r: Vec<u8>)
        requires
            self.wf(),
        ensures
            r@ == xattr_list(sf_items(self.view_list())),
    {
        let mut list: Vec<u8> = Vec::with_capacity(self.total_size as usize);
        let n: usize = self.list.len();
        let mut i: usize = 0;
        while i < n
            invariant
                0 <= i <= n,
                self.wf(),
                n == self.list@.len(),
                list@ == xattr_list(sf_items(self.view_list()).subrange(0, i as int)),
            decreases n - i,
        {
            let entry = &self.list[i];
            let namelen: usize = entry.namelen as usize;
            list_one(&mut list, entry.flags, vstd::slice::slice_subrange(entry.nameval.as_slice(), 0, namelen));
            proof {
                let s = sf_items(self.view_list()).subrange(0, i + 1);
                assert(s.drop_last() =~= sf_items(self.view_list()).subrange(0, i as int));
            }
            i = i + 1;
        }
        proof {
            assert(sf_items(self.view_list()).subrange(0, n as int) =~= sf_items(self.view_list()));
        }
        list
    }

    /// The value of the first attribute named `name`, or ENOATTR if there is none.
    pub fn get(&self, name: &[u8]) -> (r: Result<Vec<u8>, i32>)
        requires
            self.wf(),
        ensures
            match sf_attr_find(self.view_list(), name@, 0) {
                None => r == Err::<Vec<u8>, i32>(ENOATTR),
                Some(k) => r matches Ok(v) && v@ == self.view_list()[k].2.subrange(
                    self.view_list()[k].0 as int,
                    self.view_list()[k].2.len() as int,
                ),
            },
    {
        let n: usize = self.list.len();
        let mut i: usize = 0;
        while i < n
            invariant
                0 <= i <= n,
                self.wf(),
                n == self.list@.len(),
                sf_attr_find(self.view_list(), name@, 0) == sf_attr_find(self.view_list(), name@, i as int),
            decreases n - i,
        {
            let entry = &self.list[i];
            let namelen: usize = entry.namelen as usize;
            if bytes_eq(vstd::slice::slice_subrange(entry.nameval.as_slice(), 0, namelen), name) {
                let v = vstd::slice::slice_to_vec(
                    vstd::slice::slice_subrange(entry.nameval.as_slice(), namelen, entry.nameval.len()),
                );
                return Ok(v);
            }
            i = i + 1;
        }
        Err(ENOATTR)
    }
}

/// Every attribute that the listing names can be fetched: when no two attributes share a
/// name, looking up the name of any of them finds that one.
pub proof fn lemma_sf_attr_listed_found(list: Seq<(u8, u8, Seq<u8>)>, k: int)
    requires
        0 <= k < list.len(),
        forall|i: int, j: int|
            0 <= i < list.len() && 0 <= j < list.len() && i != j ==> (#[trigger] list[i]).2.subrange(
                0,
                list[i].0 as int,
            ) != (#[trigger] list[j]).2.subrange(0, list[j].0 as int),
    ensures
        sf_attr_find(list, list[k].2.subrange(0, list[k].0 as int), 0) == Some(k),
{
    lemma_sf_attr_find_from(list, list[k].2.subrange(0, list[k].0 as int), 0, k);
}

/// Searching from `from` finds the only entry at or after it that has the name.
proof fn lemma_sf_attr_find_from(list: Seq<(u8, u8, Seq<u8>)>, name: Seq<u8>, from: int, k: int)
    requires
        0 <= from <= k < list.len(),
        list[k].2.subrange(0, list[k].0 as int) == name,
        forall|i: int| from <= i < k ==> (#[trigger] list[i]).2.subrange(0, list[i].0 as int) != name,
    ensures
        sf_attr_find(list, name, from) == Some(k),
    decreases k - from,
{
    if from < k {
        lemma_sf_attr_find_from(list, name, from + 1, k);
    }
}

/// Each short form attribute is listed under the name space of its own flags, followed by its
/// name: the first `namelen` bytes of its name and value.
pub proof fn lemma_sf_listing_entry(a: AttrShortform, i: int)
    requires
        0 <= i < a.list@.len(),
    ensures
        sf_items(a.view_list())[i].0 == a.list@[i].flags,
        sf_items(a.view_list())[i].1 == a.list@[i].nameval@.subrange(0, a.list@[i].namelen as int),
{
}

} // verus!
