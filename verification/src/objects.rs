//! The table of shared objects that argument values refer to.
//!
//! An object lives as long as somebody holds a reference to it. The table
//! records, for every live handle, what kind of object it names and how
//! many references are held; the storage behind the objects is not its concern.

use vstd::prelude::*;
use crate::error::ErrorKind;

verus! {

/// The kinds of objects an argument value can refer to.
#[derive(Clone, Copy, Debug, PartialEq, Eq, Structural)]
pub enum ObjectKind {
    Buffer,
    Image,
    Sampler,
}

/// What the table records about a live object.
#[derive(Clone, Copy, Debug)]
pub struct ObjectEntry {
    pub kind: ObjectKind,
    /// The number of references held; never zero for a live object.
    pub refs: usize,
}

/// All shared objects. Handle `h` names the object in slot `h - 1`; handle
/// zero names nothing.
#[derive(Debug)]
pub struct ObjectTable {
    pub entries: Vec<Option<ObjectEntry>>,
}

impl ObjectKind {
    /// The error that a handle earns which does not name a live object of this kind.
    pub open spec fn spec_invalid(self) -> ErrorKind {
        match self {
            ObjectKind::Buffer => ErrorKind::InvalidMemObject,
            ObjectKind::Image => ErrorKind::InvalidMemObject,
            ObjectKind::Sampler => ErrorKind::InvalidSampler,
        }
    }

    /// The error that a handle earns which does not name a live object of this kind.
    pub fn invalid(self) -> (e: ErrorKind)
        ensures
            e == self.spec_invalid(),
    {
        match self {
            ObjectKind::Buffer => ErrorKind::InvalidMemObject,
            ObjectKind::Image => ErrorKind::InvalidMemObject,
            ObjectKind::Sampler => ErrorKind::InvalidSampler,
        }
    }
}

/// The table after one more reference to `h` is held; `h` must be live.
pub open spec fn retained(m: Map<u64, (ObjectKind, nat)>, h: u64) -> Map<u64, (ObjectKind, nat)> {
    m.insert(h, (m[h].0, m[h].1 + 1))
}

/// The table after one reference to `h` is dropped: the object is gone with
/// its last reference. A handle that is not live is ignored.
pub open spec fn released(m: Map<u64, (ObjectKind, nat)>, h: u64) -> Map<u64, (ObjectKind, nat)> {
    if !m.dom().contains(h) {
        m
    } else if m[h].1 <= 1 {
        m.remove(h)
    } else {
        m.insert(h, (m[h].0, (m[h].1 - 1) as nat))
    }
}

/// [`retained`], where there is a handle to retain.
pub open spec fn retained_opt(m: Map<u64, (ObjectKind, nat)>, h: Option<u64>) -> Map<
    u64,
    (ObjectKind, nat),
> {
    match h {
        Some(h) => retained(m, h),
        None => m,
    }
}

/// [`released`], where there is a handle to release.
pub open spec fn released_opt(m: Map<u64, (ObjectKind, nat)>, h: Option<u64>) -> Map<
    u64,
    (ObjectKind, nat),
> {
    match h {
        Some(h) => released(m, h),
        None => m,
    }
}

impl View for ObjectTable {
    type V = Map<u64, (ObjectKind, nat)>;

    /// The live handles, each with its kind and the number of references held.
    open spec fn view(&self) -> Map<u64, (ObjectKind, nat)> {
        Map::new(
            |h: u64| self.entry(h) is Some,
            |h: u64| (self.entry(h)->0.kind, self.entry(h)->0.refs as nat),
        )
    }
}

impl ObjectTable {
    /// Every live object has at least one reference, and every slot has a handle.
    pub open spec fn wf(&self) -> bool {
        &&& self.entries@.len() < u64::MAX
        &&& self.entries@.len() <= usize::MAX
        &&& forall|i: int|
            0 <= i < self.entries@.len() ==> ((#[trigger] self.entries@[i]) matches Some(e)
                ==> e.refs > 0)
    }

    /// What the table records under `h`, if `h` names a live object.
    pub open spec fn entry(&self, h: u64) -> Option<ObjectEntry> {
        if 1 <= h <= self.entries@.len() {
            self.entries@[h - 1]
        } else {
            None
        }
    }

    /// `h` names a live object of kind `kind`.
    pub open spec fn live(&self, h: u64, kind: ObjectKind) -> bool {
        self.entry(h) matches Some(e) && e.kind == kind
    }

    /// The number of references held to `h`; zero where `h` is not live.
    pub open spec fn count(&self, h: u64) -> nat {
        match self.entry(h) {
            Some(e) => e.refs as nat,
            None => 0,
        }
    }

    /// Every handle but `h` names in this table what it names in `other`.
    pub open spec fn same_but(&self, other: &ObjectTable, h: u64) -> bool {
        forall|k: u64| k != h ==> #[trigger] self.entry(k) == other.entry(k)
    }

    /// The view lists exactly the live handles, with kind and count.
    pub proof fn lemma_view(&self, h: u64)
        ensures
            self@.dom().contains(h) <==> self.entry(h) is Some,
            self@.dom().contains(h) ==> self@[h] == (self.entry(h)->0.kind, self.count(h)),
    {
    }

    /// A table without objects.
    pub fn new() -> (t: ObjectTable)
        ensures
            t.wf(),
            t.entries@.len() == 0,
            t@ == Map::<u64, (ObjectKind, nat)>::empty(),
    {
        let t = ObjectTable { entries: Vec::new() };
        assert(t@ =~= Map::<u64, (ObjectKind, nat)>::empty());
        t
    }

    /// Tests [`ObjectTable::live`].
    pub fn is_live(&self, h: u64, kind: ObjectKind) -> (b: bool)
        requires
            self.wf(),
        ensures
            b == self.live(h, kind),
    {
        if h == 0 || h > self.entries.len() as u64 {
            return false;
        }
        match self.entries[(h - 1) as usize] {
            Some(e) => e.kind == kind,
            None => false,
        }
    }

    /// The number of references held to the object of kind `kind` that `h` names.
    pub fn refcnt(&self, h: u64, kind: ObjectKind) -> (r: Result<usize, ErrorKind>)
        requires
            self.wf(),
        ensures
            r == (if self.live(h, kind) {
                Ok::<usize, ErrorKind>(self.count(h) as usize)
            } else {
                Err::<usize, ErrorKind>(kind.spec_invalid())
            }),
            r matches Ok(n) ==> n == self.count(h) && n > 0,
    {
        if !self.is_live(h, kind) {
            return Err(kind.invalid());
        }
        match self.entries[(h - 1) as usize] {
            Some(e) => Ok(e.refs),
            None => Err(kind.invalid()),
        }
    }

    /// Registers a new object of kind `kind`, held by one reference, and
    /// returns its handle. `None` where the table cannot grow.
    pub fn create(&mut self, kind: ObjectKind) -> (r: Option<u64>)
        requires
            old(self).wf(),
        ensures
            final(self).wf(),
            match r {
                Some(h) => {
                    &&& h == old(self).entries@.len() + 1
                    &&& old(self).entry(h) is None
                    &&& final(self).live(h, kind)
                    &&& final(self).count(h) == 1
                    &&& final(self).entries@.len() == old(self).entries@.len() + 1
                    &&& final(self).same_but(old(self), h)
                    &&& final(self)@ == old(self)@.insert(h, (kind, 1nat))
                },
                None => final(self)@ == old(self)@ && old(self).entries@.len() + 1 >= u64::MAX,
            },
    {
        if self.entries.len() as u64 >= u64::MAX - 1 {
            return None;
        }
        let ghost before = *self;
        self.entries.push(Some(ObjectEntry { kind, refs: 1 }));
        let h = self.entries.len() as u64;
        assert(self@ =~= before@.insert(h, (kind, 1nat)));
        Some(h)
    }

    /// Takes one more reference to the object of kind `kind` that `h` names.
    ///
    /// Refused where `h` does not name a live object of that kind, and for
    /// want of resources where the count cannot grow; the table is then unchanged.
    pub fn retain(&mut self, h: u64, kind: ObjectKind) -> (r: Result<(), ErrorKind>)
        requires
            old(self).wf(),
        ensures
            final(self).wf(),
            r == (if !old(self).live(h, kind) {
                Err::<(), ErrorKind>(kind.spec_invalid())
            } else if old(self).count(h) >= usize::MAX {
                Err::<(), ErrorKind>(ErrorKind::OutOfHostMemory)
            } else {
                Ok::<(), ErrorKind>(())
            }),
            final(self)@ == (if r is Ok {
                retained(old(self)@, h)
            } else {
                old(self)@
            }),
            r is Err ==> *final(self) == *old(self),
            final(self).entries@.len() == old(self).entries@.len(),
            r is Ok ==> final(self).live(h, kind) && final(self).count(h) == old(self).count(h) + 1,
            final(self).same_but(old(self), h),
    {
        if !self.is_live(h, kind) {
            return Err(kind.invalid());
        }
        let i = (h - 1) as usize;
        let ghost before = *self;
        match self.entries[i] {
            Some(e) => {
                if e.refs == usize::MAX {
                    return Err(ErrorKind::OutOfHostMemory);
                }
                self.entries[i] = Some(ObjectEntry { kind: e.kind, refs: e.refs + 1 });
                assert(self@ =~= retained(before@, h));
                Ok(())
            },
            None => Err(kind.invalid()),
        }
    }

    /// Drops one reference to `h`, whatever kind of object it names; the
    /// object is gone with its last reference. A handle that is not live is ignored.
    pub fn drop_ref(&mut self, h: u64)
        requires
            old(self).wf(),
        ensures
            final(self).wf(),
            final(self)@ == released(old(self)@, h),
            final(self).entries@.len() == old(self).entries@.len(),
            final(self).count(h) == (if old(self).count(h) > 0 {
                old(self).count(h) - 1
            } else {
                0
            }),
            final(self).count(h) > 0 ==> final(self).entry(h)->0.kind == old(self).entry(h)->0.kind,
            final(self).same_but(old(self), h),
    {
        if h == 0 || h > self.entries.len() as u64 {
            return ;
        }
        let i = (h - 1) as usize;
        let ghost before = *self;
        match self.entries[i] {
            Some(e) => {
                if e.refs <= 1 {
                    self.entries[i] = None;
                } else {
                    self.entries[i] = Some(ObjectEntry { kind: e.kind, refs: e.refs - 1 });
                }
                assert(self@ =~= released(before@, h));
            },
            None => {},
        }
    }

    /// Drops one reference to the object of kind `kind` that `h` names and
    /// says whether the object is gone.
    ///
    /// Refused, with the table unchanged, where `h` does not name a live
    /// object of that kind.
    pub fn release(&mut self, h: u64, kind: ObjectKind) -> (r: Result<bool, ErrorKind>)
        requires
            old(self).wf(),
        ensures
            final(self).wf(),
            r == (if old(self).live(h, kind) {
                Ok::<bool, ErrorKind>(old(self).count(h) == 1)
            } else {
                Err::<bool, ErrorKind>(kind.spec_invalid())
            }),
            final(self)@ == (if r is Ok {
                released(old(self)@, h)
            } else {
                old(self)@
            }),
            r is Err ==> *final(self) == *old(self),
            r is Ok ==> final(self).count(h) == old(self).count(h) - 1,
            final(self).entries@.len() == old(self).entries@.len(),
            final(self).same_but(old(self), h),
    {
        if !self.is_live(h, kind) {
            return Err(kind.invalid());
        }
        let ghost before = *self;
        self.drop_ref(h);
        proof {
            before.lemma_view(h);
            self.lemma_view(h);
        }
        let gone = self.entries[(h - 1) as usize].is_none();
        Ok(gone)
    }
}

/// Taking a reference and dropping it again leaves the table as it was.
pub proof fn lemma_retain_then_release(m: Map<u64, (ObjectKind, nat)>, h: u64)
    requires
        m.dom().contains(h),
        m[h].1 > 0,
    ensures
        released(retained(m, h), h) == m,
{
    assert(released(retained(m, h), h) =~= m);
}

} // verus!
