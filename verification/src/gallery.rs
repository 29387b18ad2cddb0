//! The gallery: an ordered sequence of image file paths and a cursor that
//! moves over it cyclically. Membership is fixed once the gallery is built;
//! only the cursor ever changes.

use vstd::prelude::*;
use crate::paths::is_image_path;
use crate::paths::is_image_path_seq;

verus! {

/// Cursor position after one step forward, wrapping from the last entry to
/// the first.
pub open spec fn next_index(len: int, i: int) -> int {
    if i == len - 1 {
        0
    } else {
        i + 1
    }
}

/// Cursor position after one step backward, wrapping from the first entry to
/// the last.
pub open spec fn prev_index(len: int, i: int) -> int {
    if i == 0 {
        len - 1
    } else {
        i - 1
    }
}

/// An ordered, cyclic collection of image file paths with a movable cursor.
pub struct Gallery {
    images: Vec<String>,
    index: usize,
}

impl Gallery {
    /// The member paths, each as its sequence of characters.
    pub closed spec fn paths(self) -> Seq<Seq<char>> {
        self.images@.map_values(|s: String| s@)
    }

    /// The cursor.
    pub closed spec fn cursor(self) -> int {
        self.index as int
    }

    /// The number of members.
    pub open spec fn spec_len(self) -> int {
        self.paths().len() as int
    }

    /// The cursor stays in range while the gallery is inhabited, and rests at
    /// zero while it is empty.
    pub open spec fn wf(self) -> bool {
        &&& self.spec_len() > 0 ==> 0 <= self.cursor() < self.spec_len()
        &&& self.spec_len() == 0 ==> self.cursor() == 0
    }

    /// The path under the cursor, for an inhabited gallery.
    pub open spec fn current(self) -> Seq<char>
        recommends
            self.spec_len() > 0,
    {
        self.paths()[self.cursor()]
    }

    /// Builds a gallery over scanned membership. When the originally
    /// requested path is a file that the scan would not have recognized, it
    /// still becomes a member, appended after the scanned entries. The
    /// cursor starts on the first member equal to the requested path, or on
    /// the first member when none is. Paths compare as exact character
    /// sequences: the host hands in the requested path spelled the way the
    /// listed entries are, with redundant separators and `.` components
    /// already folded away.
    pub fn new(images: Vec<String>, requested: &str, requested_is_file: bool) -> (g: Gallery)
        ensures
            g.wf(),
            requested_is_file && !is_image_path_seq(requested@) ==> g.paths() == images@.map_values(
                |s: String| s@,
            ).push(requested@),
            !(requested_is_file && !is_image_path_seq(requested@)) ==> g.paths()
                == images@.map_values(|s: String| s@),
            (exists|k: int| 0 <= k < g.paths().len() && g.paths()[k] == requested@) ==> {
                &&& 0 <= g.cursor() < g.paths().len()
                &&& g.paths()[g.cursor()] == requested@
                &&& forall|j: int| 0 <= j < g.cursor() ==> g.paths()[j] != requested@
            },
            !(exists|k: int| 0 <= k < g.paths().len() && g.paths()[k] == requested@) ==> g.cursor()
                == 0,
    {
        let mut members = images;
        if requested_is_file && !is_image_path(requested) {
            members.push(String::from_str(requested));
            proof {
                assert(members@.map_values(|s: String| s@) =~= images@.map_values(
                    |s: String| s@,
                ).push(requested@));
            }
        }
        let req = String::from_str(requested);
        let mut idx: usize = 0;
        let mut found = false;
        let mut i: usize = 0;
        while i < members.len()
            invariant
                0 <= i <= members@.len(),
                !found ==> idx == 0 && forall|j: int| 0 <= j < i ==> members@[j]@ != requested@,
                found ==> idx < members@.len() && members@[idx as int]@ == requested@ && forall|
                    j: int,
                |
                    0 <= j < idx ==> members@[j]@ != requested@,
                req@ == requested@,
            decreases members@.len() - i,
        {
            if !found && members[i] == req {
                idx = i;
                found = true;
            }
            i = i + 1;
        }
        let g = Gallery { images: members, index: idx };
        proof {
            assert(g.paths().len() == g.images@.len());
            assert(forall|j: int| 0 <= j < g.paths().len() ==> g.paths()[j] == g.images@[j]@);
            if found {
                assert(g.paths()[idx as int] == requested@);
            }
        }
        g
    }

    /// Advances the cursor one step, wrapping from the last entry to the
    /// first, and returns the path now under it; an empty gallery is left
    /// untouched.
    pub fn next(&mut self) -> (r: Option<String>)
        requires
            old(self).wf(),
        ensures
            final(self).wf(),
            final(self).paths() == old(self).paths(),
            old(self).spec_len() == 0 ==> *final(self) == *old(self) && r is None,
            old(self).spec_len() > 0 ==> {
                &&& final(self).cursor() == next_index(old(self).spec_len(), old(self).cursor())
                &&& r is Some
                &&& r.unwrap()@ == final(self).current()
            },
    {
        if self.images.is_empty() {
            return None;
        }
        if self.index == self.images.len() - 1 {
            self.index = 0;
        } else {
            self.index = self.index + 1;
        }
        self.get()
    }

    /// Retreats the cursor one step, wrapping from the first entry to the
    /// last, and returns the path now under it; an empty gallery is left
    /// untouched.
    pub fn prev(&mut self) -> (r: Option<String>)
        requires
            old(self).wf(),
        ensures
            final(self).wf(),
            final(self).paths() == old(self).paths(),
            old(self).spec_len() == 0 ==> *final(self) == *old(self) && r is None,
            old(self).spec_len() > 0 ==> {
                &&& final(self).cursor() == prev_index(old(self).spec_len(), old(self).cursor())
                &&& r is Some
                &&& r.unwrap()@ == final(self).current()
            },
    {
        if self.images.is_empty() {
            return None;
        }
        if self.index == 0 {
            self.index = self.images.len() - 1;
        } else {
            self.index = self.index - 1;
        }
        self.get()
    }

    /// The path under the cursor, or nothing for an empty gallery.
    pub fn get(&self) -> (r: Option<String>)
        requires
            self.wf(),
        ensures
            self.spec_len() == 0 ==> r is None,
            self.spec_len() > 0 ==> r is Some && r.unwrap()@ == self.current(),
    {
        if self.images.len() == 0 {
            None
        } else {
            Some(self.images[self.index].clone())
        }
    }

    /// The cursor.
    pub fn position(&self) -> (r: usize)
        ensures
            r == self.cursor(),
    {
        self.index
    }

    /// The number of members.
    pub fn size(&self) -> (r: usize)
        ensures
            r == self.spec_len(),
    {
        self.images.len()
    }
}

/// Stepping forward and then backward restores the cursor, as does stepping
/// backward and then forward, for every cursor of an inhabited gallery.
/// Since navigation never changes membership, the path under the cursor is
/// then also restored.
pub proof fn lemma_next_prev_round_trip(len: int, i: int)
    requires
        0 < len,
        0 <= i < len,
    ensures
        prev_index(len, next_index(len, i)) == i,
        next_index(len, prev_index(len, i)) == i,
{
}

/// For any inhabited gallery: stepping forward and then backward — here,
/// any three states linked as `next` and `prev` leave them — restores the
/// cursor and so the path under it; and symmetrically backward then
/// forward.
pub proof fn lemma_gallery_next_prev(g0: Gallery, g1: Gallery, g2: Gallery)
    requires
        g0.wf(),
        g0.spec_len() > 0,
        g1.paths() == g0.paths(),
        g2.paths() == g1.paths(),
        g1.cursor() == next_index(g0.spec_len(), g0.cursor()) && g2.cursor() == prev_index(
            g1.spec_len(),
            g1.cursor(),
        ) || g1.cursor() == prev_index(g0.spec_len(), g0.cursor()) && g2.cursor() == next_index(
            g1.spec_len(),
            g1.cursor(),
        ),
    ensures
        g2.cursor() == g0.cursor(),
        g2.current() == g0.current(),
{
    lemma_next_prev_round_trip(g0.spec_len(), g0.cursor());
}

/// The cursor after `n` forward steps.
pub open spec fn next_index_n(len: int, i: int, n: nat) -> int
    decreases n,
{
    if n == 0 {
        i
    } else {
        next_index(len, next_index_n(len, i, (n - 1) as nat))
    }
}

/// Within one revolution the cursor advances linearly, wrapping once.
proof fn lemma_next_index_n_linear(len: int, i: int, n: nat)
    requires
        0 < len,
        0 <= i < len,
        n <= len,
    ensures
        next_index_n(len, i, n) == if i + n < len {
            i + n
        } else {
            i + n - len
        },
    decreases n,
{
    if n > 0 {
        lemma_next_index_n_linear(len, i, (n - 1) as nat);
    }
}

/// One full revolution: as many forward steps as the gallery has members
/// return the cursor to where it started.
pub proof fn lemma_next_cycle(len: int, i: int)
    requires
        0 < len,
        0 <= i < len,
    ensures
        next_index_n(len, i, len as nat) == i,
{
    lemma_next_index_n_linear(len, i, len as nat);
}

} // verus!
