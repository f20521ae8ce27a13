use vstd::prelude::*;

use rand::seq::SliceRandom;

verus! {

/// `order` maps every viewing position to a distinct file index.
pub open spec fn is_permutation_of(order: Seq<usize>, n: int) -> bool {
    &&& order.len() == n
    &&& order.no_duplicates()
    &&& forall|i: int| 0 <= i < order.len() ==> (#[trigger] order[i]) < n
}

/// The arrangement that visits files in their name order.
pub open spec fn is_identity(order: Seq<usize>) -> bool {
    forall|i: int| 0 <= i < order.len() ==> (#[trigger] order[i]) == i
}

/// Traversal state over the sibling file list: the list itself, a permutation
/// of its indices giving the viewing order (identity, or a random shuffle),
/// and the position being viewed inside that permutation.
pub struct NavState {
    /// File names, in their initial name-ordered arrangement.
    pub files: Vec<String>,
    /// The permutation of `[0, files.len())` in viewing order.
    pub order: Vec<usize>,
    /// Position within `order` of the file being viewed.
    pub position: usize,
    /// Whether `order` is currently a random shuffle.
    pub randomized: bool,
}

/// Relies on rand::seq::SliceRandom::shuffle with rand::rng: the in-place
/// Fisher-Yates shuffle only swaps elements, so the arrangement changes but
/// the collection of entries does not. Which arrangement comes out is
/// random; nothing more is assumed of it.
#[verifier::external_body]
fn shuffle_in_place(v: &mut Vec<usize>)
    ensures
        final(v)@.to_multiset() == old(v)@.to_multiset(),
{
    let mut rng = rand::rng();
    v.shuffle(&mut rng);
}

/// The identity permutation over `[0, n)`.
fn identity_order(n: usize) -> (order: Vec<usize>)
    ensures
        order@.len() == n,
        is_identity(order@),
        is_permutation_of(order@, n as int),
{
    let mut order: Vec<usize> = Vec::new();
    let mut i: usize = 0;
    while i < n
        invariant
            0 <= i <= n,
            order@.len() == i,
            forall|k: int| 0 <= k < i ==> (#[trigger] order@[k]) == k,
        decreases n - i,
    {
        order.push(i);
        i = i + 1;
    }
    order
}

/// First position holding `target`, scanning from the front.
fn position_of(order: &Vec<usize>, target: usize) -> (r: Option<usize>)
    ensures
        match r {
            Some(p) => p < order@.len() && order@[p as int] == target,
            None => forall|i: int| 0 <= i < order@.len() ==> (#[trigger] order@[i]) != target,
        },
{
    let mut i: usize = 0;
    while i < order.len()
        invariant
            0 <= i <= order@.len(),
            forall|k: int| 0 <= k < i ==> (#[trigger] order@[k]) != target,
        decreases order@.len() - i,
    {
        if order[i] == target {
            return Some(i);
        }
        i = i + 1;
    }
    None
}

impl NavState {
    /// The permutation ranges over exactly the file indices and the viewed
    /// position is inside it (0 on an empty list).
    pub open spec fn wf(&self) -> bool {
        &&& is_permutation_of(self.order@, self.files@.len() as int)
        &&& self.files@.len() > 0 ==> (self.position as int) < self.order@.len()
        &&& self.files@.len() == 0 ==> self.position == 0
    }

    /// The index (into the file list) of the file being viewed.
    pub open spec fn spec_current(&self) -> int {
        self.order@[self.position as int] as int
    }

    /// Start viewing `files` in name order at `start` (or at the first file
    /// when `start` is out of range).
    pub fn new(files: Vec<String>, start: usize) -> (nav: NavState)
        ensures
            nav.wf(),
            nav.files@ == files@,
            is_identity(nav.order@),
            !nav.randomized,
            nav.position == if (start as int) < files@.len() {
                start as int
            } else {
                0
            },
    {
        let n = files.len();
        let order = identity_order(n);
        let position = if start < n {
            start
        } else {
            0
        };
        NavState { files, order, position, randomized: false }
    }

    /// How many files remain.
    pub fn len(&self) -> (n: usize)
        ensures
            n == self.files@.len(),
    {
        self.files.len()
    }

    /// The file index the current position resolves to.
    pub fn current_index(&self) -> (j: usize)
        requires
            self.wf(),
            self.files@.len() > 0,
        ensures
            j as int == self.spec_current(),
            j < self.files@.len(),
    {
        self.order[self.position]
    }

    /// The name of the file being viewed.
    pub fn current_file(&self) -> (name: &String)
        requires
            self.wf(),
            self.files@.len() > 0,
        ensures
            name@ == self.files@[self.spec_current()]@,
    {
        let j = self.order[self.position];
        &self.files[j]
    }

    /// Step forward one position, wrapping past the end; empty lists are left
    /// alone.
    pub fn next(&mut self)
        requires
            old(self).wf(),
        ensures
            final(self).wf(),
            final(self).files == old(self).files,
            final(self).order == old(self).order,
            final(self).randomized == old(self).randomized,
            old(self).files@.len() > 0 ==> final(self).position as int == (old(self).position + 1)
                % (old(self).order@.len() as int),
            old(self).files@.len() == 0 ==> final(self).position == old(self).position,
    {
        if self.files.len() > 0 {
            let n = self.order.len();
            if self.position + 1 == n {
                self.position = 0;
            } else {
                self.position = self.position + 1;
            }
            proof {
                let n = old(self).order@.len() as int;
                let p = old(self).position as int;
                if p + 1 == n {
                    vstd::arithmetic::div_mod::lemma_mod_self_0(n);
                } else {
                    vstd::arithmetic::div_mod::lemma_small_mod((p + 1) as nat, n as nat);
                }
            }
        }
    }

    /// Step backward one position, wrapping past the front; empty lists are
    /// left alone.
    pub fn prev(&mut self)
        requires
            old(self).wf(),
        ensures
            final(self).wf(),
            final(self).files == old(self).files,
            final(self).order == old(self).order,
            final(self).randomized == old(self).randomized,
            old(self).files@.len() > 0 ==> final(self).position as int == if old(self).position
                == 0 {
                old(self).order@.len() - 1
            } else {
                old(self).position - 1
            },
            old(self).files@.len() == 0 ==> final(self).position == old(self).position,
    {
        if self.files.len() > 0 {
            if self.position == 0 {
                self.position = self.order.len() - 1;
            } else {
                self.position = self.position - 1;
            }
        }
    }

    /// Jump to the first position of the viewing order.
    pub fn first(&mut self)
        requires
            old(self).wf(),
        ensures
            final(self).wf(),
            final(self).files == old(self).files,
            final(self).order == old(self).order,
            final(self).randomized == old(self).randomized,
            final(self).position == 0,
    {
        self.position = 0;
    }

    /// Jump to the last position of the viewing order; empty lists are left
    /// alone.
    pub fn last(&mut self)
        requires
            old(self).wf(),
        ensures
            final(self).wf(),
            final(self).files == old(self).files,
            final(self).order == old(self).order,
            final(self).randomized == old(self).randomized,
            old(self).files@.len() > 0 ==> final(self).position as int == old(
                self,
            ).order@.len() - 1,
            old(self).files@.len() == 0 ==> final(self).position == old(self).position,
    {
        if self.files.len() > 0 {
            self.position = self.order.len() - 1;
        }
    }

    /// Switch between name order and a fresh uniform shuffle. Whichever way
    /// the toggle goes, the file being viewed stays the same: the position is
    /// relocated to wherever that file's index lands in the new permutation,
    /// never reset. Toggling back to name order restores the exact identity
    /// permutation.
    pub fn toggle_random(&mut self)
        requires
            old(self).wf(),
        ensures
            final(self).wf(),
            final(self).files == old(self).files,
            final(self).randomized == !old(self).randomized,
            !final(self).randomized ==> is_identity(final(self).order@),
            old(self).files@.len() > 0 ==> final(self).spec_current() == old(self).spec_current(),
    {
        if self.files.len() == 0 {
            self.randomized = !self.randomized;
            return ;
        }
        let current = self.order[self.position];
        let ghost old_order = self.order@;
        if !self.randomized {
            shuffle_in_place(&mut self.order);
            proof {
                broadcast use vstd::seq_lib::group_to_multiset_ensures;

                let new_order = self.order@;
                assert(new_order.to_multiset() == old_order.to_multiset());
                assert(new_order.to_multiset().len() == old_order.to_multiset().len());
                assert(new_order.len() == old_order.len());
                old_order.lemma_multiset_has_no_duplicates();
                assert forall|x: usize| new_order.to_multiset().contains(x) implies
                    new_order.to_multiset().count(x) == 1 by {
                    assert(old_order.to_multiset().count(x) > 0);
                }
                new_order.lemma_multiset_has_no_duplicates_conv();
                assert forall|i: int| 0 <= i < new_order.len() implies (#[trigger] new_order[i])
                    < self.files@.len() by {
                    assert(new_order.contains(new_order[i]));
                    assert(new_order.to_multiset().count(new_order[i]) > 0);
                    assert(old_order.to_multiset().count(new_order[i]) > 0);
                    assert(old_order.contains(new_order[i]));
                }
                assert(old_order.contains(current));
                assert(old_order.to_multiset().count(current) > 0);
                assert(new_order.to_multiset().count(current) > 0);
                assert(new_order.contains(current));
            }
            self.randomized = true;
        } else {
            self.order = identity_order(self.files.len());
            self.randomized = false;
            proof {
                assert(self.order@[current as int] == current);
                assert(self.order@.contains(current));
            }
        }
        match position_of(&self.order, current) {
            Some(p) => {
                self.position = p;
            },
            None => {
                proof {
                    assert(self.order@.contains(current));
                    assert(false);
                }
                self.position = 0;
            },
        }
    }

    /// Remove the file being viewed. Its index leaves both the file list and
    /// the permutation; every remaining permutation entry that pointed past
    /// the removed index shifts down by exactly one; the position wraps
    /// modulo the shorter length. Returns the removed file's index so the
    /// caller can tell which path was deleted.
    pub fn delete_current(&mut self) -> (j: usize)
        requires
            old(self).wf(),
            old(self).files@.len() > 0,
        ensures
            final(self).wf(),
            j as int == old(self).spec_current(),
            final(self).files@ == old(self).files@.remove(j as int),
            final(self).randomized == old(self).randomized,
            final(self).order@.len() == old(self).order@.len() - 1,
            forall|k: int|
                0 <= k < final(self).order@.len() ==> {
                    let e = old(self).order@.remove(old(self).position as int)[k];
                    (#[trigger] final(self).order@[k]) as int == if e > j {
                        e - 1
                    } else {
                        e as int
                    }
                },
            final(self).position as int == if old(self).files@.len() > 1 {
                old(self).position as int % (old(self).files@.len() - 1)
            } else {
                0
            },
    {
        let ghost old_order = self.order@;
        let ghost old_pos = self.position as int;
        let ghost old_n = self.files@.len() as int;
        let j = self.order.remove(self.position);
        self.files.remove(j);
        let ghost mid = self.order@;
        proof {
            old_order.remove_ensures(old_pos);
            assert forall|m: int| 0 <= m < mid.len() implies (#[trigger] mid[m]) < old_n && mid[m]
                != j by {
                if m < old_pos {
                    assert(mid[m] == old_order[m]);
                } else {
                    assert(mid[m] == old_order[m + 1]);
                }
            }
            assert forall|a: int, b: int|
                0 <= a < b < mid.len() implies #[trigger] mid[a] != #[trigger] mid[b] by {
                let a0 = if a < old_pos {
                    a
                } else {
                    a + 1
                };
                let b0 = if b < old_pos {
                    b
                } else {
                    b + 1
                };
                assert(mid[a] == old_order[a0] && mid[b] == old_order[b0]);
            }
        }
        let ghost files_after = self.files@;
        let n = self.order.len();
        let mut k: usize = 0;
        while k < n
            invariant
                0 <= k <= n,
                n == self.order@.len(),
                mid.len() == n,
                n == old_n - 1,
                j < old_n,
                self.files@ == files_after,
                files_after.len() == old_n - 1,
                self.position as int == old_pos,
                self.randomized == old(self).randomized,
                forall|m: int| 0 <= m < n ==> (#[trigger] mid[m]) < old_n && mid[m] != j,
                forall|a: int, b: int| 0 <= a < b < n ==> #[trigger] mid[a] != #[trigger] mid[b],
                forall|m: int|
                    0 <= m < k ==> (#[trigger] self.order@[m]) as int == if mid[m] > j {
                        mid[m] - 1
                    } else {
                        mid[m] as int
                    },
                forall|m: int| k <= m < n ==> (#[trigger] self.order@[m]) == mid[m],
            decreases n - k,
        {
            let e = self.order[k];
            if e > j {
                self.order[k] = e - 1;
            }
            k = k + 1;
        }
        if self.files.len() == 0 {
            self.position = 0;
        } else {
            self.position = self.position % self.order.len();
        }
        proof {
            let new_order = self.order@;
            assert forall|a: int, b: int|
                0 <= a < b < new_order.len() implies #[trigger] new_order[a]
                != #[trigger] new_order[b] by {
                assert(mid[a] != mid[b]);
            }
            assert(new_order.no_duplicates());
            assert forall|m: int| 0 <= m < new_order.len() implies (#[trigger] new_order[m])
                < self.files@.len() by {
                assert(mid[m] != j && mid[m] < old_n);
            }
        }
        j
    }
}

} // verus!
