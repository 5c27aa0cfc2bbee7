//! The avatar registry: which uploaded avatar, if any, belongs to a user or
//! a guild. Only the bookkeeping lives here; reading and writing the image
//! files is transport work and stays outside the library.
use vstd::prelude::*;

verus! {

/// What kind of owner an avatar belongs to.
#[derive(PartialEq, Eq, Clone, Copy, Debug, Structural, Hash)]
pub enum AvK {
    /// A user's avatar.
    U,
    /// A guild's avatar.
    G,
}

/// The file type an avatar was uploaded as.
#[derive(PartialEq, Eq, Clone, Copy, Debug, Structural)]
pub enum AvFt {
    /// An animated image.
    Anim,
    /// A still image.
    Static,
}

/// The key of one avatar: whose it is.
#[derive(Debug, Clone)]
pub struct AvRef {
    pub k: AvK,
    pub i: String,
}

/// One registered avatar: its key and its file type.
#[derive(Debug, Clone)]
pub struct Av {
    pub r: AvRef,
    pub ft: AvFt,
}

/// The first entry of `s` at or after `j` keyed by `(k, name)`.
pub open spec fn find_avatar_from(s: Seq<(AvRef, Av)>, k: AvK, name: Seq<char>, j: int) -> Option<
    Av,
>
    decreases s.len() - j,
{
    if 0 <= j < s.len() {
        if s[j].0.k == k && s[j].0.i@ == name {
            Some(s[j].1)
        } else {
            find_avatar_from(s, k, name, j + 1)
        }
    } else {
        None
    }
}

pub open spec fn spec_find_avatar(s: Seq<(AvRef, Av)>, k: AvK, name: Seq<char>) -> Option<Av> {
    find_avatar_from(s, k, name, 0)
}

/// The registry of uploaded avatars, keyed by owner kind and id.
pub struct Storage {
    avatars: Vec<(AvRef, Av)>,
}

impl Storage {
    pub closed spec fn spec_avatars(&self) -> Seq<(AvRef, Av)> {
        self.avatars@
    }

    /// An empty registry.
    pub fn new() -> (r: Storage)
        ensures
            r.spec_avatars() =~= Seq::<(AvRef, Av)>::empty(),
    {
        Storage { avatars: Vec::new() }
    }

    /// The registered avatar of this owner, if any.
    pub fn get_user_avatar(&self, id: String, kind: AvK) -> (r: Option<Av>)
        ensures
            r == spec_find_avatar(self.spec_avatars(), kind, id@),
    {
        let n = self.avatars.len();
        let mut j: usize = 0;
        while j < n
            invariant
                0 <= j <= n == self.avatars@.len(),
                spec_find_avatar(self.avatars@, kind, id@) == find_avatar_from(
                    self.avatars@,
                    kind,
                    id@,
                    j as int,
                ),
            decreases n - j,
        {
            let entry = &self.avatars[j];
            let k_match = match (entry.0.k, kind) {
                (AvK::U, AvK::U) => true,
                (AvK::G, AvK::G) => true,
                _ => false,
            };
            if k_match && entry.0.i.eq(&id) {
                let found = Av {
                    r: AvRef { k: entry.1.r.k, i: entry.1.r.i.clone() },
                    ft: entry.1.ft,
                };
                assert(found == self.avatars@[j as int].1);
                return Some(found);
            }
            j += 1;
        }
        None
    }

    /// Records an avatar upload: appends the entry for this owner. The file
    /// itself is written by the transport layer before this is called.
    pub fn record_avatar(&mut self, id: String, kind: AvK, ft: AvFt)
        ensures
            final(self).spec_avatars().len() == old(self).spec_avatars().len() + 1,
            final(self).spec_avatars().subrange(
                0,
                old(self).spec_avatars().len() as int,
            ) == old(self).spec_avatars(),
            ({
                let e = final(self).spec_avatars().last();
                e.0.k == kind && e.0.i@ == id@ && e.1.ft == ft && e.1.r.k == kind && e.1.r.i@
                    == id@
            }),
    {
        let key = AvRef { k: kind, i: id.clone() };
        let entry = Av { r: AvRef { k: kind, i: id }, ft };
        self.avatars.push((key, entry));
        proof {
            assert(self.avatars@.subrange(0, old(self).avatars@.len() as int) =~= old(
                self,
            ).avatars@);
        }
    }
}

} // verus!
