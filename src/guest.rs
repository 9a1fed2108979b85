//! Guest containers and the table of reference counts that backs them.
use vstd::prelude::*;
use vstd::utf8::{decode_utf8, encode_utf8, valid_utf8};

verus! {

/// Longest string, in bytes, that the guest keeps inline instead of in a
/// counted allocation.
pub const SMALL_STR_MAX: usize = 23;

/// Count after one increment; a count that reached the maximum sticks there.
pub open spec fn count_after_inc(c: u64) -> u64 {
    if c == u64::MAX {
        c
    } else {
        (c + 1) as u64
    }
}

/// Count after one decrement; a released allocation (count zero) stays released.
pub open spec fn count_after_dec(c: u64) -> u64 {
    if c == 0 {
        0
    } else {
        (c - 1) as u64
    }
}

/// Counts after incrementing the allocation `a`, if there is one.
pub open spec fn inc_at(h: Seq<u64>, a: Option<usize>) -> Seq<u64> {
    match a {
        Some(id) => if id < h.len() {
            h.update(id as int, count_after_inc(h[id as int]))
        } else {
            h
        },
        None => h,
    }
}

/// Counts after decrementing the allocation `a`, if there is one.
pub open spec fn dec_at(h: Seq<u64>, a: Option<usize>) -> Seq<u64> {
    match a {
        Some(id) => if id < h.len() {
            h.update(id as int, count_after_dec(h[id as int]))
        } else {
            h
        },
        None => h,
    }
}

/// The allocation `a` is absent or names a slot of the table.
pub open spec fn in_table(h: Seq<u64>, a: Option<usize>) -> bool {
    match a {
        Some(id) => id < h.len(),
        None => true,
    }
}

/// The guest's reference counts, one per counted allocation, indexed by the
/// allocation's identifier.
#[derive(Debug)]
pub struct RcHeap {
    counts: Vec<u64>,
}

impl View for RcHeap {
    type V = Seq<u64>;

    closed spec fn view(&self) -> Seq<u64> {
        self.counts@
    }
}

impl RcHeap {
    /// A table with no allocations.
    pub fn new() -> (r: RcHeap)
        ensures
            r@ == Seq::<u64>::empty(),
    {
        RcHeap { counts: Vec::new() }
    }

    /// Number of allocations made so far.
    pub fn len(&self) -> (r: usize)
        ensures
            r == self@.len(),
    {
        self.counts.len()
    }

    /// Current count of allocation `id`, or `None` for an unknown identifier.
    pub fn count(&self, id: usize) -> (r: Option<u64>)
        ensures
            r == (if id < self@.len() { Some(self@[id as int]) } else { None::<u64> }),
    {
        if id < self.counts.len() {
            Some(self.counts[id])
        } else {
            None
        }
    }

    /// Makes a new allocation, owned once.
    pub fn allocate(&mut self) -> (id: usize)
        requires
            old(self)@.len() < usize::MAX,
        ensures
            id == old(self)@.len(),
            final(self)@ == old(self)@.push(1),
    {
        let id = self.counts.len();
        self.counts.push(1);
        id
    }

    /// Records one more owning reference to allocation `a`, if there is one.
    pub fn inc(&mut self, a: Option<usize>)
        requires
            in_table(old(self)@, a),
        ensures
            final(self)@ == inc_at(old(self)@, a),
    {
        if let Some(id) = a {
            let c = self.counts[id];
            if c < u64::MAX {
                self.counts.set(id, c + 1);
            }
        }
    }

    /// Drops one owning reference to allocation `a`, if there is one.
    /// Returns whether this released the allocation: its count went from one
    /// to zero. A count already at zero is left alone, so nothing is released
    /// twice.
    pub fn dec(&mut self, a: Option<usize>) -> (released: bool)
        requires
            in_table(old(self)@, a),
        ensures
            final(self)@ == dec_at(old(self)@, a),
            released == (a is Some && old(self)@[a->0 as int] == 1),
    {
        if let Some(id) = a {
            let c = self.counts[id];
            if c > 0 {
                self.counts.set(id, c - 1);
            }
            c == 1
        } else {
            false
        }
    }
}

/// The allocation `a` is absent, or live with room for `k` more increments
/// before its count reaches the maximum.
pub open spec fn live_with(h: Seq<u64>, a: Option<usize>, k: int) -> bool {
    match a {
        Some(id) => id < h.len() && 1 <= h[id as int] && h[id as int] + k < u64::MAX,
        None => true,
    }
}

/// An increment anywhere uses up at most one increment of headroom elsewhere.
pub proof fn lemma_inc_keeps_live(h: Seq<u64>, a: Option<usize>, b: Option<usize>, k: int)
    requires
        in_table(h, a),
        live_with(h, b, k),
        k >= 1,
    ensures
        live_with(inc_at(h, a), b, k - 1),
        inc_at(h, a).len() == h.len(),
        forall|c: Option<usize>| in_table(h, c) ==> in_table(inc_at(h, a), c),
{
}

/// Incrementing then decrementing a live allocation leaves the counts as they were.
pub proof fn lemma_inc_dec_at(h: Seq<u64>, a: Option<usize>)
    requires
        live_with(h, a, 0),
    ensures
        dec_at(inc_at(h, a), a) == h,
{
    if let Some(id) = a {
        assert(dec_at(inc_at(h, a), a) =~= h);
    }
}

/// Copies a byte slice into a fresh vector.
pub fn copy_bytes(b: &[u8]) -> (r: Vec<u8>)
    ensures
        r@ == b@,
{
    let mut r: Vec<u8> = Vec::new();
    let mut i: usize = 0;
    while i < b.len()
        invariant
            i <= b@.len(),
            r@ == b@.subrange(0, i as int),
        decreases b@.len() - i,
    {
        r.push(b[i]);
        i = i + 1;
    }
    assert(r@ =~= b@);
    r
}

/// What `String::from_utf8_lossy` makes of a byte sequence: each invalid run
/// becomes one replacement character.
pub uninterp spec fn lossy_text(b: Seq<u8>) -> Seq<char>;

/// Relies on `String::from_utf8_lossy`: the text depends on the bytes alone,
/// and valid UTF-8 comes through unchanged.
#[verifier::external_body]
fn utf8_lossy(b: &[u8]) -> (r: String)
    ensures
        r@ == lossy_text(b@),
        valid_utf8(b@) ==> r@ == decode_utf8(b@),
{
    String::from_utf8_lossy(b).into_owned()
}

/// Relies on `std::str::from_utf8`: it succeeds exactly on valid UTF-8.
#[verifier::external_body]
fn is_utf8(b: &[u8]) -> (r: bool)
    ensures
        r == valid_utf8(b@),
{
    std::str::from_utf8(b).is_ok()
}

/// A guest string: UTF-8 bytes, kept inline when short and otherwise in a
/// counted allocation of the guest.
#[derive(Debug)]
pub struct GuestStr {
    bytes: Vec<u8>,
    alloc: Option<usize>,
}

impl View for GuestStr {
    type V = Seq<u8>;

    closed spec fn view(&self) -> Seq<u8> {
        self.bytes@
    }
}

impl GuestStr {
    /// The counted allocation behind the string; `None` for an inline string.
    pub closed spec fn allocation(&self) -> Option<usize> {
        self.alloc
    }

    /// Valid UTF-8, in a counted allocation exactly when longer than the
    /// inline limit, and that allocation known to `h`.
    pub open spec fn wf_in(&self, h: Seq<u64>) -> bool {
        &&& valid_utf8(self@)
        &&& (self.allocation() is Some <==> self@.len() > SMALL_STR_MAX)
        &&& in_table(h, self.allocation())
    }

    /// Builds a guest string holding `bytes`, allocating when they do not fit inline.
    fn from_valid_bytes(bytes: Vec<u8>, heap: &mut RcHeap) -> (r: GuestStr)
        requires
            valid_utf8(bytes@),
            old(heap)@.len() < usize::MAX,
        ensures
            r@ == bytes@,
            r.wf_in(final(heap)@),
            r.allocation() is Some ==> final(heap)@ == old(heap)@.push(1) && r.allocation()->0
                == old(heap)@.len(),
            r.allocation() is None ==> final(heap)@ == old(heap)@,
    {
        if bytes.len() > SMALL_STR_MAX {
            let id = heap.allocate();
            GuestStr { bytes, alloc: Some(id) }
        } else {
            GuestStr { bytes, alloc: None }
        }
    }

    /// Copies native text into a guest string.
    pub fn from_str(s: &str, heap: &mut RcHeap) -> (r: GuestStr)
        requires
            old(heap)@.len() < usize::MAX,
        ensures
            r@ == encode_utf8(s@),
            r.wf_in(final(heap)@),
            r.allocation() is Some ==> final(heap)@ == old(heap)@.push(1),
            r.allocation() is None ==> final(heap)@ == old(heap)@,
    {
        proof {
            vstd::utf8::encode_utf8_valid_utf8(s@);
        }
        let bytes = copy_bytes(s.as_bytes());
        GuestStr::from_valid_bytes(bytes, heap)
    }

    /// Converts native bytes into a guest string, replacing each invalid
    /// UTF-8 run with one replacement character. Never fails.
    pub fn from_utf8_lossy(b: &[u8], heap: &mut RcHeap) -> (r: GuestStr)
        requires
            old(heap)@.len() < usize::MAX,
        ensures
            r@ == encode_utf8(lossy_text(b@)),
            valid_utf8(b@) ==> r@ == b@,
            r.wf_in(final(heap)@),
            r.allocation() is Some ==> final(heap)@ == old(heap)@.push(1),
            r.allocation() is None ==> final(heap)@ == old(heap)@,
    {
        let text = utf8_lossy(b);
        proof {
            vstd::utf8::encode_utf8_valid_utf8(text@);
            if valid_utf8(b@) {
                vstd::utf8::decode_utf8_encode_utf8(b@);
            }
        }
        let bytes = copy_bytes(text.as_str().as_bytes());
        GuestStr::from_valid_bytes(bytes, heap)
    }

    /// Copies native bytes into a guest string when they are valid UTF-8;
    /// `None`, with nothing allocated, otherwise.
    pub fn from_utf8(b: &[u8], heap: &mut RcHeap) -> (r: Option<GuestStr>)
        requires
            old(heap)@.len() < usize::MAX,
        ensures
            r is Some <==> valid_utf8(b@),
            r is Some ==> r->0@ == b@ && r->0.wf_in(final(heap)@),
            r is Some && r->0.allocation() is Some ==> final(heap)@ == old(heap)@.push(1),
            r is None || r->0.allocation() is None ==> final(heap)@ == old(heap)@,
    {
        if is_utf8(b) {
            Some(GuestStr::from_valid_bytes(copy_bytes(b), heap))
        } else {
            None
        }
    }

    /// Borrows the string's bytes as a native slice.
    pub fn as_bytes(&self) -> (r: &[u8])
        ensures
            r@ == self@,
    {
        self.bytes.as_slice()
    }

    /// Length in bytes.
    pub fn len(&self) -> (r: usize)
        ensures
            r == self@.len(),
    {
        self.bytes.len()
    }

    /// The identifier of the string's counted allocation.
    pub fn allocation_id(&self) -> (r: usize)
        requires
            self.allocation() is Some,
        ensures
            r == self.allocation()->0,
    {
        match self.alloc {
            Some(id) => id,
            None => 0,
        }
    }

    /// Whether the string lives inline rather than in a counted allocation.
    pub fn is_small(&self) -> (r: bool)
        ensures
            r == (self.allocation() is None),
    {
        self.alloc.is_none()
    }

    /// Records one more owner of the string; an inline string has no count.
    pub fn inc(&self, heap: &mut RcHeap)
        requires
            in_table(old(heap)@, self.allocation()),
        ensures
            final(heap)@ == inc_at(old(heap)@, self.allocation()),
    {
        heap.inc(self.alloc);
    }

    /// Drops one owner of the string; an inline string has no count.
    pub fn dec(&self, heap: &mut RcHeap)
        requires
            in_table(old(heap)@, self.allocation()),
        ensures
            final(heap)@ == dec_at(old(heap)@, self.allocation()),
    {
        heap.dec(self.alloc);
    }

    /// Another owner of the same string: the storage is shared and its count
    /// goes up by one.
    pub fn share(&self, heap: &mut RcHeap) -> (r: GuestStr)
        requires
            in_table(old(heap)@, self.allocation()),
        ensures
            r@ == self@,
            r.allocation() == self.allocation(),
            final(heap)@ == inc_at(old(heap)@, self.allocation()),
    {
        heap.inc(self.alloc);
        GuestStr { bytes: copy_bytes(self.bytes.as_slice()), alloc: self.alloc }
    }
}

/// A guest list: elements in order, in a counted allocation unless empty.
#[derive(Debug)]
pub struct GuestList<T> {
    items: Vec<T>,
    alloc: Option<usize>,
}

impl<T> View for GuestList<T> {
    type V = Seq<T>;

    closed spec fn view(&self) -> Seq<T> {
        self.items@
    }
}

impl<T> GuestList<T> {
    /// The counted allocation behind the list; `None` for an empty list.
    pub closed spec fn allocation(&self) -> Option<usize> {
        self.alloc
    }

    /// Allocated exactly when non-empty, and that allocation known to `h`.
    pub open spec fn wf_in(&self, h: Seq<u64>) -> bool {
        &&& (self.allocation() is Some <==> self@.len() > 0)
        &&& in_table(h, self.allocation())
    }

    /// Hands `items` to the guest, in order, in one allocation.
    pub fn from_vec(items: Vec<T>, heap: &mut RcHeap) -> (r: GuestList<T>)
        requires
            old(heap)@.len() < usize::MAX,
        ensures
            r@ == items@,
            r.wf_in(final(heap)@),
            r.allocation() is Some ==> final(heap)@ == old(heap)@.push(1),
            r.allocation() is None ==> final(heap)@ == old(heap)@,
    {
        if items.len() == 0 {
            GuestList { items, alloc: None }
        } else {
            let id = heap.allocate();
            GuestList { items, alloc: Some(id) }
        }
    }

    /// Borrows the elements as a native slice, without allocating.
    pub fn as_slice(&self) -> (r: &[T])
        ensures
            r@ == self@,
    {
        self.items.as_slice()
    }

    /// Number of elements.
    pub fn len(&self) -> (r: usize)
        ensures
            r == self@.len(),
    {
        self.items.len()
    }

    /// Records one more owner of the list's allocation.
    pub fn inc(&self, heap: &mut RcHeap)
        requires
            in_table(old(heap)@, self.allocation()),
        ensures
            final(heap)@ == inc_at(old(heap)@, self.allocation()),
    {
        heap.inc(self.alloc);
    }

    /// Drops one owner of the list's allocation; returns whether that released it.
    pub fn dec(&self, heap: &mut RcHeap) -> (released: bool)
        requires
            in_table(old(heap)@, self.allocation()),
        ensures
            final(heap)@ == dec_at(old(heap)@, self.allocation()),
            released == (self.allocation() is Some && old(heap)@[self.allocation()->0 as int] == 1),
    {
        heap.dec(self.alloc)
    }
}

impl GuestList<u8> {
    /// Copies native bytes into a guest list.
    pub fn from_slice(b: &[u8], heap: &mut RcHeap) -> (r: GuestList<u8>)
        requires
            old(heap)@.len() < usize::MAX,
        ensures
            r@ == b@,
            r.wf_in(final(heap)@),
            r.allocation() is Some ==> final(heap)@ == old(heap)@.push(1),
            r.allocation() is None ==> final(heap)@ == old(heap)@,
    {
        GuestList::from_vec(copy_bytes(b), heap)
    }
}

} // verus!
