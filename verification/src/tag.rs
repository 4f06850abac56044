//! Tags: named workspace labels. A tag carries an active flag and the
//! layout algorithm that governs the output while it is the first active
//! tag.

use vstd::prelude::*;

verus! {

/// The layout algorithm a tag selects for the windows it filters.
#[derive(Clone, Copy, Debug, PartialEq, Eq, Structural)]
pub enum LayoutKind {
    /// One master window on the left, the rest stacked on the right.
    MasterStack,
    /// All windows in a single vertical stack.
    Stacked,
}

/// A workspace label. Windows refer to tags by `id`; the tag itself is
/// owned by the output it is attached to.
#[derive(Debug)]
pub struct Tag {
    pub id: u32,
    pub name: String,
    pub active: bool,
    pub layout: LayoutKind,
}

impl Clone for Tag {
    fn clone(&self) -> (res: Self)
        ensures
            res == *self,
    {
        Tag { id: self.id, name: self.name.clone(), active: self.active, layout: self.layout }
    }
}

/// Whether the sequence `tags` holds a tag with the given id.
pub open spec fn seq_has_tag_id(tags: Seq<Tag>, id: u32) -> bool {
    exists|i: int| 0 <= i < tags.len() && tags[i].id == id
}

/// Whether two tag-id sets, given as sequences, intersect: some id occurs
/// in both.
pub open spec fn tag_ids_intersect(ids: Seq<u32>, tags: Seq<Tag>) -> bool {
    exists|i: int| 0 <= i < ids.len() && seq_has_tag_id(tags, ids[i])
}

/// Does the id sequence `ids` contain `id`?
pub open spec fn seq_has_id(ids: Seq<u32>, id: u32) -> bool {
    exists|i: int| 0 <= i < ids.len() && ids[i] == id
}

/// `ids` without every occurrence of `id`, in order.
pub open spec fn spec_ids_without(ids: Seq<u32>, id: u32) -> Seq<u32> {
    ids.filter(|x: u32| x != id)
}

/// Drop every occurrence of `id` from the id list, preserving order.
pub fn ids_without(ids: &Vec<u32>, id: u32) -> (r: Vec<u32>)
    ensures
        r@ == spec_ids_without(ids@, id),
{
    let mut out: Vec<u32> = Vec::new();
    let mut i: usize = 0;
    while i < ids.len()
        invariant
            0 <= i <= ids.len(),
            out@ == spec_ids_without(ids@.take(i as int), id),
        decreases ids.len() - i,
    {
        proof {
            assert(ids@.take(i + 1).drop_last() =~= ids@.take(i as int));
            reveal(Seq::filter);
        }
        if ids[i] != id {
            out.push(ids[i]);
        }
        i += 1;
    }
    proof {
        assert(ids@.take(ids@.len() as int) =~= ids@);
    }
    out
}

/// Copy a list of ids.
pub fn copy_ids(v: &Vec<u32>) -> (r: Vec<u32>)
    ensures
        r@ == v@,
{
    let mut out: Vec<u32> = Vec::new();
    let mut i: usize = 0;
    while i < v.len()
        invariant
            0 <= i <= v.len(),
            out@ == v@.take(i as int),
        decreases v.len() - i,
    {
        out.push(v[i]);
        proof {
            assert(out@ =~= v@.take(i + 1));
        }
        i += 1;
    }
    proof {
        assert(v@.take(v@.len() as int) =~= v@);
    }
    out
}

/// Look for `id` among the ids in `ids`.
pub fn ids_contain(ids: &Vec<u32>, id: u32) -> (r: bool)
    ensures
        r == seq_has_id(ids@, id),
{
    let mut i: usize = 0;
    while i < ids.len()
        invariant
            0 <= i <= ids.len(),
            forall|j: int| 0 <= j < i ==> ids@[j] != id,
        decreases ids.len() - i,
    {
        if ids[i] == id {
            return true;
        }
        i += 1;
    }
    false
}

/// Look for a tag with the given id among `tags`.
pub fn tags_contain_id(tags: &Vec<Tag>, id: u32) -> (r: bool)
    ensures
        r == seq_has_tag_id(tags@, id),
{
    let mut i: usize = 0;
    while i < tags.len()
        invariant
            0 <= i <= tags.len(),
            forall|j: int| 0 <= j < i ==> tags@[j].id != id,
        decreases tags.len() - i,
    {
        if tags[i].id == id {
            return true;
        }
        i += 1;
    }
    false
}

/// Do the window's tag ids `ids` share at least one id with the tags in
/// `tags`?
pub fn ids_intersect_tags(ids: &Vec<u32>, tags: &Vec<Tag>) -> (r: bool)
    ensures
        r == tag_ids_intersect(ids@, tags@),
{
    let mut i: usize = 0;
    while i < ids.len()
        invariant
            0 <= i <= ids.len(),
            forall|j: int| 0 <= j < i ==> !seq_has_tag_id(tags@, ids@[j]),
        decreases ids.len() - i,
    {
        if tags_contain_id(tags, ids[i]) {
            return true;
        }
        i += 1;
    }
    false
}

} // verus!
