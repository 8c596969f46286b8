//! The method table: turning a stack frame's instruction pointer into a name.
use vstd::prelude::*;

use crate::bytes::{load_u32, load_u64, u32_at, u64_at};
use crate::nettrace::reader::{take_utf16_nul_string, Reader};
use crate::order::{is_order, order_covers, ranks, sorted_order, Ranked};

verus! {

/// One jitted method's address range and name.
#[derive(Debug, Clone)]
pub struct Method {
    pub start_address: u64,
    pub size: u32,
    pub namespace: String,
    pub name: String,
    pub signature: String,
}

/// A [`Method`] over sequences.
pub struct MethodModel {
    pub start_address: u64,
    pub size: u32,
    pub namespace: Seq<char>,
    pub name: Seq<char>,
    pub signature: Seq<char>,
}

impl View for Method {
    type V = MethodModel;

    open spec fn view(&self) -> MethodModel {
        MethodModel {
            start_address: self.start_address,
            size: self.size,
            namespace: self.namespace@,
            name: self.name@,
            signature: self.signature@,
        }
    }
}

impl MethodModel {
    /// `Namespace.Method`, or just the method when it has no namespace.
    pub open spec fn qualified_name(self) -> Seq<char> {
        if self.namespace.len() == 0 {
            self.name
        } else {
            self.namespace + "."@ + self.name
        }
    }

    /// Whether an address lies in the method. Its end is not part of it.
    pub open spec fn covers(self, address: u64) -> bool {
        self.start_address <= address < self.start_address + self.size
    }
}

impl Method {
    /// `Namespace.Method`, or just the method when it has no namespace.
    pub fn qualified_name(&self) -> (s: String)
        ensures
            s@ == self@.qualified_name(),
    {
        if self.namespace.as_str().is_empty() {
            self.name.clone()
        } else {
            let mut s = self.namespace.clone();
            s.append(".");
            s.append(self.name.as_str());
            s
        }
    }

    pub fn contains(&self, address: u64) -> (yes: bool)
        ensures
            yes == self@.covers(address),
    {
        address >= self.start_address && address - self.start_address < self.size as u64
    }
}

/// MethodLoadVerbose / MethodDCEndVerbose:
/// `MethodID:u64, ModuleID:u64, MethodStartAddress:u64, MethodSize:u32, MethodToken:u32,
/// MethodFlags:u32, MethodNamespace:wstr, MethodName:wstr, MethodSignature:wstr, ClrInstanceID:u16`
/// with a trailing `ReJITID:u64` in later versions, which is not needed.
pub open spec fn method_in(b: Seq<u8>) -> Option<MethodModel> {
    if b.len() < 36 {
        None
    } else {
        let namespace = take_utf16_nul_string(b, 36);
        let name = take_utf16_nul_string(b, namespace.pos);
        let signature = take_utf16_nul_string(b, name.pos);
        match (namespace.result, name.result, signature.result) {
            (Ok(ns), Ok(n), Ok(s)) => Some(
                MethodModel {
                    start_address: u64_at(b, 16),
                    size: u32_at(b, 24),
                    namespace: ns,
                    name: n,
                    signature: s,
                },
            ),
            _ => None,
        }
    }
}

pub fn decode_method(payload: &[u8]) -> (method: Option<Method>)
    ensures
        match (method, method_in(payload@)) {
            (Some(m), Some(w)) => m@ == w,
            (None, None) => true,
            _ => false,
        },
{
    if payload.len() < 36 {
        return None;
    }
    let mut r = Reader::new(payload);
    if r.skip(36, "method record").is_err() {
        return None;
    }
    let namespace = match r.utf16_nul_string() {
        Ok(s) => s,
        Err(_) => {
            return None;
        },
    };
    let name = match r.utf16_nul_string() {
        Ok(s) => s,
        Err(_) => {
            return None;
        },
    };
    match r.utf16_nul_string() {
        Ok(signature) => Some(
            Method {
                start_address: load_u64(payload, 16),
                size: load_u32(payload, 24),
                namespace,
                name,
                signature,
            },
        ),
        Err(_) => None,
    }
}

// ---------------------------------------------------------------------------------------------
// The table

/// Of the first `n` methods, the one that starts nearest below an address, or at it. Of several
/// that start there, the last to arrive.
pub open spec fn nearest(methods: Seq<MethodModel>, address: u64, n: nat) -> Option<int>
    decreases n,
{
    if n == 0 {
        None
    } else {
        let m = methods[n - 1];
        let before = nearest(methods, address, (n - 1) as nat);
        if m.start_address > address {
            before
        } else {
            match before {
                Some(i) if methods[i].start_address > m.start_address => before,
                _ => Some(n - 1),
            }
        }
    }
}

/// The method that an address belongs to. Only the nearest one below it can be it.
pub open spec fn resolved(methods: Seq<MethodModel>, address: u64) -> Option<int> {
    match nearest(methods, address, methods.len()) {
        Some(i) if methods[i].covers(address) => Some(i),
        _ => None,
    }
}

/// Whether method `i` starts nearest below an address, of the first `n`.
spec fn is_nearest(methods: Seq<MethodModel>, address: u64, n: int, i: int) -> bool {
    &&& 0 <= i < n
    &&& methods[i].start_address <= address
    &&& forall|j: int|
        0 <= j < n && (#[trigger] methods[j]).start_address <= address ==> methods[j].start_address
            < methods[i].start_address || (methods[j].start_address == methods[i].start_address
            && j <= i)
}

proof fn nearest_is_nearest(methods: Seq<MethodModel>, address: u64, n: nat)
    requires
        n <= methods.len(),
    ensures
        match nearest(methods, address, n) {
            Some(i) => is_nearest(methods, address, n as int, i),
            None => forall|j: int| 0 <= j < n ==> (#[trigger] methods[j]).start_address > address,
        },
    decreases n,
{
    if n > 0 {
        nearest_is_nearest(methods, address, (n - 1) as nat);
    }
}

proof fn nearest_is_unique(methods: Seq<MethodModel>, address: u64, i: int)
    requires
        is_nearest(methods, address, methods.len() as int, i),
    ensures
        nearest(methods, address, methods.len()) == Some(i),
{
    nearest_is_nearest(methods, address, methods.len());
    assert(methods[i].start_address <= address);
    if let Some(j) = nearest(methods, address, methods.len()) {
        assert(methods[j].start_address <= address);
    }
}

/// A [`MethodTable`] as a value: its methods in order of arrival, and whether it is ready for
/// lookup.
pub struct TableModel {
    pub methods: Seq<MethodModel>,
    pub sorted: bool,
}

/// Address-to-method lookup over the whole process.
///
/// Built once when the rundown lands, then queried per sampled address, so it is sorted for
/// binary search rather than hashed: addresses are ranges, not keys.
#[derive(Debug)]
pub struct MethodTable {
    methods: Vec<Method>,
    /// The places of the methods, by start address.
    order: Vec<usize>,
    sorted: bool,
}

/// The models of a list of methods.
pub open spec fn method_models(methods: Seq<Method>) -> Seq<MethodModel> {
    Seq::new(methods.len(), |i: int| methods[i]@)
}

/// Methods by start address.
struct ByStart<'a> {
    methods: &'a Vec<Method>,
}

impl<'a> Ranked for ByStart<'a> {
    closed spec fn count(&self) -> nat {
        self.methods@.len()
    }

    closed spec fn at_most(&self, i: int, j: int) -> bool {
        self.methods@[i].start_address <= self.methods@[j].start_address
    }

    proof fn total(&self, i: int, j: int) {
    }

    proof fn transitive(&self, i: int, j: int, k: int) {
    }

    fn may_precede(&self, i: usize, j: usize) -> (yes: bool) {
        self.methods[i].start_address <= self.methods[j].start_address
    }
}

impl View for MethodTable {
    type V = TableModel;

    closed spec fn view(&self) -> TableModel {
        TableModel { methods: method_models(self.methods@), sorted: self.sorted }
    }
}

impl Default for MethodTable {
    fn default() -> (t: Self)
        ensures
            t.wf(),
            t@ == (TableModel { methods: Seq::empty(), sorted: false }),
    {
        MethodTable::new()
    }
}

impl MethodTable {
    pub closed spec fn wf(&self) -> bool {
        &&& self.sorted ==> is_order(
            &ByStart { methods: &self.methods },
            self.order@,
            0,
            self.methods@.len() as int,
        )
        &&& forall|i: int| 0 <= i < self.methods@.len() ==> (#[trigger] self.methods@[i]).size > 0
    }

    /// No method in a table is empty.
    pub proof fn sizes_are_positive(&self)
        requires
            self.wf(),
        ensures
            forall|i: int|
                0 <= i < self@.methods.len() ==> (#[trigger] self@.methods[i]).size > 0,
    {
    }

    pub fn new() -> (t: Self)
        ensures
            t.wf(),
            t@ == (TableModel { methods: Seq::empty(), sorted: false }),
    {
        let t = MethodTable { methods: Vec::new(), order: Vec::new(), sorted: false };
        assert(t@.methods =~= Seq::<MethodModel>::empty());
        t
    }

    /// Add a method. A zero-length method can never match an address, and is not kept.
    pub fn insert(&mut self, method: Method)
        requires
            old(self).wf(),
        ensures
            final(self).wf(),
            final(self)@ == (if method@.size == 0 {
                old(self)@
            } else {
                TableModel { methods: old(self)@.methods.push(method@), sorted: false }
            }),
    {
        if method.size == 0 {
            return;
        }
        let ghost before = self@;
        let ghost model = method@;
        self.methods.push(method);
        self.sorted = false;
        assert(self@.methods =~= before.methods.push(model));
    }

    pub fn len(&self) -> (n: usize)
        ensures
            n == self@.methods.len(),
    {
        self.methods.len()
    }

    pub fn is_empty(&self) -> (empty: bool)
        ensures
            empty == (self@.methods.len() == 0),
    {
        self.methods.is_empty()
    }

    /// Sort for lookup. Cheap to call repeatedly; only re-sorts after an insert.
    pub fn finish(&mut self)
        requires
            old(self).wf(),
        ensures
            final(self).wf(),
            final(self)@ == (TableModel { methods: old(self)@.methods, sorted: true }),
    {
        if !self.sorted {
            let by_start = ByStart { methods: &self.methods };
            let order = sorted_order(&by_start, self.methods.len());
            self.order = order;
            self.sorted = true;
        }
    }

    /// The method containing `address`, if any.
    ///
    /// Returns `None` for native frames (the runtime itself, the OS, anything not jitted) which
    /// are a normal and large fraction of any real stack.
    pub fn resolve(&self, address: u64) -> (method: Option<&Method>)
        requires
            self.wf(),
            self@.sorted,
        ensures
            match (method, resolved(self@.methods, address)) {
                (Some(m), Some(i)) => m@ == self@.methods[i],
                (None, None) => true,
                _ => false,
            },
    {
        let ghost by_start = ByStart { methods: &self.methods };
        let ghost n = self.methods@.len() as int;
        // The last method starting at or below the address is the only candidate.
        let mut low: usize = 0;
        let mut high: usize = self.order.len();
        while low < high
            invariant
                low <= high <= self.order@.len(),
                self.wf(),
                self.sorted,
                n == self.methods@.len(),
                by_start == (ByStart { methods: &self.methods }),
                forall|k: int|
                    0 <= k < low ==> self.methods@[#[trigger] self.order@[k] as int].start_address
                        <= address,
                forall|k: int|
                    high <= k < self.order@.len() ==> self.methods@[#[trigger] self.order@[k] as int].start_address
                        > address,
            decreases high - low,
        {
            let mid: usize = low + (high - low) / 2;
            assert(self.order@[mid as int] < n);
            if self.methods[self.order[mid]].start_address <= address {
                assert forall|k: int| 0 <= k < mid implies self.methods@[#[trigger] self.order@[k] as int].start_address
                    <= address by {
                    assert(ranks(
                        &by_start,
                        self.order@[k] as int,
                        self.order@[mid as int] as int,
                    ));
                }
                low = mid + 1;
            } else {
                assert forall|k: int| mid < k < self.order@.len() implies self.methods@[#[trigger] self.order@[k] as int].start_address
                    > address by {
                    assert(ranks(
                        &by_start,
                        self.order@[mid as int] as int,
                        self.order@[k] as int,
                    ));
                }
                high = mid;
            }
        }
        if low == 0 {
            proof {
                nearest_is_nearest(self@.methods, address, self@.methods.len());
                if let Some(i) = nearest(self@.methods, address, self@.methods.len()) {
                    let k = order_covers(&by_start, self.order@, n, i);
                    assert(self.methods@[self.order@[k] as int].start_address > address);
                    assert(self@.methods[i].start_address <= address);
                }
            }
            return None;
        }
        let place: usize = self.order[low - 1];
        proof {
            assert(self.methods@[self.order@[low - 1] as int].start_address <= address);
            assert forall|j: int|
                0 <= j < n && (#[trigger] self@.methods[j]).start_address
                    <= address implies self@.methods[j].start_address
                < self@.methods[place as int].start_address || (self@.methods[j].start_address
                == self@.methods[place as int].start_address && j <= place) by {
                let k = order_covers(&by_start, self.order@, n, j);
                assert(self.order@[k] == j);
                if k >= low {
                    assert(self.methods@[self.order@[k] as int].start_address > address);
                }
                if k < low - 1 {
                    assert(ranks(
                        &by_start,
                        self.order@[k] as int,
                        self.order@[low - 1] as int,
                    ));
                }
            }
            nearest_is_unique(self@.methods, address, place as int);
        }
        let candidate = &self.methods[place];
        if candidate.contains(address) {
            Some(candidate)
        } else {
            None
        }
    }
}

// ---------------------------------------------------------------------------------------------
// What lookup promises

/// Whether no two methods share an address, and none is empty.
pub open spec fn are_disjoint(methods: Seq<MethodModel>) -> bool {
    &&& forall|i: int| 0 <= i < methods.len() ==> (#[trigger] methods[i]).size > 0
    &&& forall|i: int, j: int|
        0 <= i < methods.len() && 0 <= j < methods.len() && i != j ==> {
            let a = #[trigger] methods[i];
            let b = #[trigger] methods[j];
            a.start_address + a.size <= b.start_address || b.start_address + b.size
                <= a.start_address
        }
}

/// A name is only ever given to an address inside the method of that name.
pub proof fn resolved_addresses_are_inside(methods: Seq<MethodModel>, address: u64)
    ensures
        resolved(methods, address) matches Some(i) ==> 0 <= i < methods.len()
            && methods[i].covers(address),
{
    nearest_is_nearest(methods, address, methods.len());
}

/// Every address inside a method resolves to it.
pub proof fn covered_addresses_resolve(methods: Seq<MethodModel>, i: int, address: u64)
    requires
        are_disjoint(methods),
        0 <= i < methods.len(),
        methods[i].covers(address),
    ensures
        resolved(methods, address) == Some(i),
{
    assert(is_nearest(methods, address, methods.len() as int, i)) by {
        assert forall|j: int|
            0 <= j < methods.len() && (#[trigger] methods[j]).start_address
                <= address implies methods[j].start_address < methods[i].start_address || (
        methods[j].start_address == methods[i].start_address && j <= i) by {
            if j != i {
                let a = methods[i];
                let b = methods[j];
                assert(a.start_address + a.size <= b.start_address || b.start_address + b.size
                    <= a.start_address);
            }
        }
    }
    nearest_is_unique(methods, address, i);
}

/// The order in which methods arrive does not matter: two tables of the same methods resolve every
/// address alike.
pub proof fn arrival_order_does_not_matter(
    a: Seq<MethodModel>,
    b: Seq<MethodModel>,
    address: u64,
)
    requires
        are_disjoint(a),
        are_disjoint(b),
        forall|m: MethodModel| a.contains(m) <==> b.contains(m),
    ensures
        match (resolved(a, address), resolved(b, address)) {
            (Some(i), Some(j)) => a[i] == b[j],
            (None, None) => true,
            _ => false,
        },
{
    resolved_addresses_are_inside(a, address);
    resolved_addresses_are_inside(b, address);
    if let Some(i) = resolved(a, address) {
        assert(a.contains(a[i]));
        let j = choose|j: int| 0 <= j < b.len() && b[j] == a[i];
        covered_addresses_resolve(b, j, address);
    }
    if let Some(j) = resolved(b, address) {
        assert(b.contains(b[j]));
        let i = choose|i: int| 0 <= i < a.len() && a[i] == b[j];
        covered_addresses_resolve(a, i, address);
    }
}

} // verus!
